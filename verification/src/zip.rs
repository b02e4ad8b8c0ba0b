use vstd::prelude::*;
use vstd::utf8::encode_utf8;

use crate::byteorder::{
    lemma_swap16_involution, lemma_swap_zero, le_from_u16, le_from_u32, swap16, swap32,
};
use crate::compress::deflate_output;
use crate::crc::{crc32, crc32_checksum, crc32_fold};
use crate::mt::{
    lemma_fresh_can_draw, lemma_fresh_step, lemma_outputs_len, mt_outputs, mt_state_after,
    MersenneTwister, MT_DRAWS,
};
use crate::passwd::password_chars;
use crate::records::{
    archive_bytes, central_dir_size, central_entry_model, central_entry_size, central_views,
    end_record_fits, end_record_model, entries_span, entry_name_extra, entry_span, entry_views,
    lemma_central_dir_size_prefix, lemma_entries_span_prefix, serialize_archive, Archive,
    ArchiveFields, CentralDirectoryEntry,
    CentralEntryFields, EndOfCentralDirectory, EntryFields, FileEntry, LocalHeader,
    LocalHeaderFields, CENTRAL_DIRECTORY_ENTRY_SIGNATURE, CENTRAL_ENTRY_FIXED_LEN,
    END_OF_CENTRAL_DIRECTORY_SIGNATURE, LOCAL_HEADER_FIXED_LEN, LOCAL_HEADER_SIGNATURE,
};
use crate::uuid::{uuid_text, uuid_values};
use crate::zip_crypto::{encrypt_result, initial_keys, lemma_encrypt_len, ZipCrypto};

verus! {

/// A file to be stored in the archive.
pub struct File {
    /// The name stored in the archive: the archive's identifier followed by
    /// the name given by the caller.
    pub file_name: String,
    /// The name given by the caller.
    pub file_name_raw: String,
    pub file_size: u32,
    /// MS-DOS time: hours, minutes, seconds / 2.
    pub last_mod_time: u16,
    /// MS-DOS date: years since 1980, month, day.
    pub last_mod_date: u16,
    pub file_raw: Vec<u8>,
    pub deflate: Vec<u8>,
    pub encrypt: Vec<u8>,
    pub crc: u32,
}

/// One chunk of a file's content received from a stream.
pub struct FileSlice {
    pub slice: Vec<u8>,
}

/// The chunks received so far for the file named `file_name`.
pub struct FileStream {
    pub file_name: String,
    pub stream: Vec<FileSlice>,
}

/// An archive being assembled: its identifier and password are derived
/// from `seed`.
pub struct Zip {
    pub seed: u32,
    pub uuid: String,
    pub passwd: String,
    pub files: Vec<File>,
    pub is_zip64: bool,
    pub is_compress: bool,
    pub compress_level: u32,
    pub file_stream: Vec<FileStream>,
}

/// The MS-DOS date `((y - 1980) << 9) + (m << 5) + d` from
/// `last_modified = [y, m, d, ...]`, computed in 16 bits (shifts drop the
/// bits that leave the word).
pub open spec fn dos_date_parts(lm: Seq<u16>) -> (u16, u16, u16) {
    ((((lm[0] - 1980) as u16) << 9u16), lm[1] << 5u16, lm[2] << 0u16)
}

/// The MS-DOS time `(s >> 1) + (min << 5) + (h << 11)` from
/// `last_modified = [.., .., .., h, min, s]`, computed in 16 bits.
pub open spec fn dos_time_parts(lm: Seq<u16>) -> (u16, u16, u16) {
    (lm[5] >> 1u16, lm[4] << 5u16, lm[3] << 11u16)
}

/// The date and time fields can be computed: six entries, a year from 1980
/// on, and no 16-bit addition overflows.
pub open spec fn timestamp_fits(lm: Seq<u16>) -> bool {
    &&& lm.len() >= 6
    &&& lm[0] >= 1980
    &&& dos_date_parts(lm).0 + dos_date_parts(lm).1 + dos_date_parts(lm).2 <= 0xffff
    &&& dos_time_parts(lm).0 + dos_time_parts(lm).1 + dos_time_parts(lm).2 <= 0xffff
}

/// The MS-DOS date of `last_modified`.
pub open spec fn dos_date(lm: Seq<u16>) -> u16 {
    (dos_date_parts(lm).0 + dos_date_parts(lm).1 + dos_date_parts(lm).2) as u16
}

/// The MS-DOS time of `last_modified`.
pub open spec fn dos_time(lm: Seq<u16>) -> u16 {
    (dos_time_parts(lm).0 + dos_time_parts(lm).1 + dos_time_parts(lm).2) as u16
}

/// The 32-bit size field: the size, or all ones when it does not fit below it.
pub open spec fn size_field(file_size: u64) -> u32 {
    if file_size < 0xffffffff {
        file_size as u32
    } else {
        0xffffffff
    }
}

/// `f` carries the metadata `set_meta` gives it.
pub open spec fn has_meta(f: File, uuid: Seq<char>, name: Seq<char>, file_size: u64, lm: Seq<u16>) -> bool {
    &&& f.file_name_raw@ == name
    &&& f.file_name@ == uuid + name
    &&& f.file_size == size_field(file_size)
    &&& f.last_mod_date == dos_date(lm)
    &&& f.last_mod_time == dos_time(lm)
}

/// `f` is the file `create_file` adds: the given metadata, no content yet.
pub open spec fn is_new_file(f: File, uuid: Seq<char>, name: Seq<char>, file_size: u64, lm: Seq<u16>) -> bool {
    &&& has_meta(f, uuid, name, file_size, lm)
    &&& f.file_raw@.len() == 0
    &&& f.deflate@.len() == 0
    &&& f.encrypt@.len() == 0
    &&& f.crc == 0
}

/// The index of the first stream named `name`, or -1 when there is none.
pub open spec fn stream_index(streams: Seq<FileStream>, name: Seq<char>) -> int
    decreases streams.len(),
{
    if streams.len() == 0 {
        -1
    } else {
        let p = stream_index(streams.drop_last(), name);
        if p >= 0 {
            p
        } else if streams.last().file_name@ == name {
            streams.len() - 1
        } else {
            -1
        }
    }
}

/// Whether `last_modified` can be turned into an MS-DOS date and time:
/// exactly when `timestamp_fits` holds.
pub fn valid_timestamp(last_modified: &[u16]) -> (ok: bool)
    ensures
        ok == timestamp_fits(last_modified@),
{
    if last_modified.len() < 6 || last_modified[0] < 1980 {
        return false;
    }
    let d0: u16 = (last_modified[0] - 1980) << 9;
    let d1: u16 = last_modified[1] << 5;
    let d2: u16 = last_modified[2] << 0;
    let t0: u16 = last_modified[5] >> 1;
    let t1: u16 = last_modified[4] << 5;
    let t2: u16 = last_modified[3] << 11;
    (d0 as u32 + d1 as u32 + d2 as u32) <= 0xffff && (t0 as u32 + t1 as u32 + t2 as u32) <= 0xffff
}

impl File {
    /// An empty file: empty names and contents, zero sizes, dates and CRC.
    pub fn new() -> (f: File)
        ensures
            f.file_name@.len() == 0,
            f.file_name_raw@.len() == 0,
            f.file_size == 0,
            f.last_mod_time == 0,
            f.last_mod_date == 0,
            f.file_raw@.len() == 0,
            f.deflate@.len() == 0,
            f.encrypt@.len() == 0,
            f.crc == 0,
    {
        File {
            file_name: String::new(),
            file_name_raw: String::new(),
            file_size: 0,
            last_mod_time: 0,
            last_mod_date: 0,
            file_raw: vec![],
            deflate: vec![],
            encrypt: vec![],
            crc: 0,
        }
    }

    /// Sets the names, the size and the MS-DOS date and time from
    /// `last_modified = [year, month, day, hour, minute, second]`.
    pub fn set_meta(&mut self, uuid: &String, file_name: &str, file_size: u64, last_modified: &[u16])
        requires
            timestamp_fits(last_modified@),
        ensures
            has_meta(*final(self), uuid@, file_name@, file_size, last_modified@),
            final(self).file_raw == old(self).file_raw,
            final(self).deflate == old(self).deflate,
            final(self).encrypt == old(self).encrypt,
            final(self).crc == old(self).crc,
    {
        self.file_name_raw = file_name.to_owned();
        self.file_name = uuid.clone().concat(self.file_name_raw.as_str());
        self.file_size = if file_size < 0xffffffff {
            file_size as u32
        } else {
            0xffffffff
        };
        self.last_mod_date = ((last_modified[0] - 1980) << 9) + (last_modified[1] << 5) + (
        last_modified[2] << 0);
        self.last_mod_time = (last_modified[5] >> 1) + (last_modified[4] << 5) + (last_modified[3]
            << 11);
    }

    /// Stores `file_raw` as the content, its raw DEFLATE compression at
    /// `level`, and its CRC-32.
    pub fn set_file_raw(&mut self, file_raw: Vec<u8>, level: u32)
        requires
            level <= 10,
        ensures
            final(self).file_raw@ == file_raw@,
            final(self).deflate@ == deflate_output(level, seq![file_raw@]),
            final(self).crc == crc32_checksum(file_raw@),
            final(self).file_name == old(self).file_name,
            final(self).file_name_raw == old(self).file_name_raw,
            final(self).file_size == old(self).file_size,
            final(self).last_mod_time == old(self).last_mod_time,
            final(self).last_mod_date == old(self).last_mod_date,
            final(self).encrypt == old(self).encrypt,
    {
        self.file_raw = vstd::slice::slice_to_vec(file_raw.as_slice());
        self.deflate = ZipCrypto::deflate_encode_raw(level, file_raw);
        self.crc = Self::checksum(&self.file_raw);
    }

    /// Compresses the stored content at `level` and records its CRC-32.
    pub fn calc_file_raw(&mut self, level: u32)
        requires
            level <= 10,
        ensures
            final(self).file_raw == old(self).file_raw,
            final(self).deflate@ == deflate_output(level, seq![old(self).file_raw@]),
            final(self).crc == crc32_checksum(old(self).file_raw@),
            final(self).file_name == old(self).file_name,
            final(self).file_name_raw == old(self).file_name_raw,
            final(self).file_size == old(self).file_size,
            final(self).last_mod_time == old(self).last_mod_time,
            final(self).last_mod_date == old(self).last_mod_date,
            final(self).encrypt == old(self).encrypt,
    {
        let file_raw = vstd::slice::slice_to_vec(self.file_raw.as_slice());
        self.deflate = ZipCrypto::deflate_encode_raw(level, file_raw);
        self.crc = Self::checksum(&self.file_raw);
    }

    /// The CRC-32 checksum of `data`.
    fn checksum(data: &Vec<u8>) -> (c: u32)
        ensures
            c == crc32_checksum(data@),
    {
        let mut crc: u32 = 0xffffffff;
        let mut i: usize = 0;
        while i < data.len()
            invariant
                i <= data@.len(),
                crc == crc32_fold(0xffffffffu32, data@.take(i as int)),
            decreases data@.len() - i,
        {
            crc = crc32(crc, data[i]);
            assert(data@.take(i + 1).drop_last() =~= data@.take(i as int));
            i += 1;
        }
        assert(data@.take(data@.len() as int) =~= data@);
        !crc
    }
}

/// Every field of `z` but those named is as in `o`.
pub open spec fn same_settings(z: Zip, o: Zip) -> bool {
    &&& z.seed == o.seed
    &&& z.uuid == o.uuid
    &&& z.passwd == o.passwd
    &&& z.is_zip64 == o.is_zip64
    &&& z.is_compress == o.is_compress
    &&& z.compress_level == o.compress_level
}

impl Zip {
    /// A new, empty archive whose identifier and sixteen-character password
    /// are derived from `seed`; compression is on at level 6.
    pub fn new(seed: u32) -> (z: Zip)
        ensures
            z.seed == seed,
            z.uuid@ == uuid_text(uuid_values(seed)),
            z.passwd@ == password_chars(seed, 16),
            z.files@.len() == 0,
            !z.is_zip64,
            z.is_compress,
            z.compress_level == 6,
            z.file_stream@.len() == 0,
    {
        let uuid = crate::uuid::parse(crate::uuid::generate(seed));
        let passwd = crate::passwd::generate(16, seed);
        Zip {
            seed,
            uuid,
            passwd,
            files: vec![],
            is_zip64: false,
            is_compress: true,
            compress_level: 6,
            file_stream: vec![],
        }
    }

    /// The archive's identifier.
    pub fn get_uuid(&mut self) -> (s: String)
        ensures
            s@ == old(self).uuid@,
            *final(self) == *old(self),
    {
        self.uuid.clone()
    }

    /// The archive's password.
    pub fn get_passwd(&mut self) -> (s: String)
        ensures
            s@ == old(self).passwd@,
            *final(self) == *old(self),
    {
        self.passwd.clone()
    }

    /// The compression level.
    pub fn get_compress_level(&mut self) -> (level: u32)
        ensures
            level == old(self).compress_level,
            *final(self) == *old(self),
    {
        self.compress_level
    }

    /// Replaces the password.
    pub fn set_passwd(&mut self, passwd: &str)
        ensures
            final(self).passwd@ == passwd@,
            final(self).seed == old(self).seed,
            final(self).uuid == old(self).uuid,
            final(self).files == old(self).files,
            final(self).is_zip64 == old(self).is_zip64,
            final(self).is_compress == old(self).is_compress,
            final(self).compress_level == old(self).compress_level,
            final(self).file_stream == old(self).file_stream,
    {
        self.passwd = passwd.to_owned();
    }

    /// Sets the compression level, clamped to 0..=9; level 0 turns
    /// compression off.
    pub fn set_compress_level(&mut self, level: i8)
        ensures
            final(self).compress_level == (if level < 0 {
                0
            } else if 9 < level {
                9
            } else {
                level as u32
            }),
            final(self).is_compress == (final(self).compress_level > 0),
            final(self).seed == old(self).seed,
            final(self).uuid == old(self).uuid,
            final(self).passwd == old(self).passwd,
            final(self).files == old(self).files,
            final(self).is_zip64 == old(self).is_zip64,
            final(self).file_stream == old(self).file_stream,
    {
        let level: u32 = if level < 0 {
            0
        } else if 9 < level {
            9
        } else {
            level as u32
        };
        self.is_compress = if 0 < level {
            true
        } else {
            false
        };
        self.compress_level = level;
    }

    /// Adds a file named `file_name` (stored under the archive's identifier
    /// followed by that name) with the given size and modification time,
    /// and an empty stream for its content.
    pub fn create_file(&mut self, file_name: &str, file_size: u64, last_modified: &[u16])
        requires
            timestamp_fits(last_modified@),
        ensures
            same_settings(*final(self), *old(self)),
            final(self).files@.len() == old(self).files@.len() + 1,
            final(self).files@.drop_last() == old(self).files@,
            is_new_file(final(self).files@.last(), old(self).uuid@, file_name@, file_size, last_modified@),
            final(self).file_stream@.len() == old(self).file_stream@.len() + 1,
            final(self).file_stream@.drop_last() == old(self).file_stream@,
            final(self).file_stream@.last().file_name@ == file_name@,
            final(self).file_stream@.last().stream@.len() == 0,
    {
        let mut file = File::new();
        file.set_meta(&self.uuid, file_name, file_size, last_modified);
        let stream = FileStream { file_name: file_name.to_owned(), stream: vec![] };
        self.file_stream.push(stream);
        self.files.push(file);
        assert(self.files@.drop_last() =~= old(self).files@);
        assert(self.file_stream@.drop_last() =~= old(self).file_stream@);
    }

    /// Appends `file_raw` as the next chunk of the first stream named
    /// `file_name`; does nothing when there is none.
    pub fn add_file_raw_from_stream(&mut self, file_name: &str, file_raw: &[u8])
        ensures
            same_settings(*final(self), *old(self)),
            final(self).files == old(self).files,
            final(self).file_stream@.len() == old(self).file_stream@.len(),
            stream_index(old(self).file_stream@, file_name@) < 0 <==> forall|k: int|
                0 <= k < old(self).file_stream@.len() ==> (#[trigger] old(self).file_stream@[k]).file_name@
                    != file_name@,
            stream_index(old(self).file_stream@, file_name@) < 0 ==> final(self).file_stream@
                == old(self).file_stream@,
            stream_index(old(self).file_stream@, file_name@) >= 0 ==> final(self).file_stream@[stream_index(
                old(self).file_stream@,
                file_name@,
            )].file_name@ == file_name@,
            stream_index(old(self).file_stream@, file_name@) >= 0 ==> {
                let j = stream_index(old(self).file_stream@, file_name@);
                &&& forall|k: int|
                    0 <= k < final(self).file_stream@.len() && k != j ==> final(self).file_stream@[k]
                        == old(self).file_stream@[k]
                &&& final(self).file_stream@[j].file_name == old(self).file_stream@[j].file_name
                &&& final(self).file_stream@[j].stream@.len() == old(self).file_stream@[j].stream@.len()
                    + 1
                &&& final(self).file_stream@[j].stream@.drop_last() == old(self).file_stream@[j].stream@
                &&& final(self).file_stream@[j].stream@.last().slice@ == file_raw@
            },
    {
        proof {
            lemma_stream_index_exact(self.file_stream@, file_name@);
        }
        let slice = FileSlice { slice: vstd::slice::slice_to_vec(file_raw) };
        let name = file_name.to_owned();
        let mut j: usize = 0;
        while j < self.file_stream.len()
            invariant
                j <= self.file_stream@.len(),
                *self == *old(self),
                name@ == file_name@,
                slice.slice@ == file_raw@,
                stream_index(self.file_stream@.take(j as int), file_name@) < 0,
            decreases self.file_stream@.len() - j,
        {
            assert(self.file_stream@.take(j + 1).drop_last() =~= self.file_stream@.take(j as int));
            if self.file_stream[j].file_name == name {
                assert(stream_index(self.file_stream@.take(j + 1), file_name@) == j);
                proof {
                    lemma_stream_index_prefix(self.file_stream@, file_name@, (j + 1) as int);
                }
                self.file_stream[j].stream.push(slice);
                assert(self.file_stream@[j as int].stream@.drop_last() =~= old(
                    self,
                ).file_stream@[j as int].stream@);
                return ;
            }
            j += 1;
        }
        proof {
            assert(self.file_stream@.take(j as int) =~= self.file_stream@);
        }
    }

    /// The sizes of the chunks received for the first stream named
    /// `file_name`, or `None` when there is none.
    pub fn done_of_file_stream(&mut self, file_name: &str) -> (sizes: Option<Vec<usize>>)
        ensures
            *final(self) == *old(self),
            stream_index(old(self).file_stream@, file_name@) < 0 <==> forall|k: int|
                0 <= k < old(self).file_stream@.len() ==> (#[trigger] old(self).file_stream@[k]).file_name@
                    != file_name@,
            stream_index(old(self).file_stream@, file_name@) >= 0 ==> old(self).file_stream@[stream_index(
                old(self).file_stream@,
                file_name@,
            )].file_name@ == file_name@,
            stream_index(old(self).file_stream@, file_name@) < 0 ==> sizes is None,
            stream_index(old(self).file_stream@, file_name@) >= 0 ==> (sizes matches Some(v) && v@
                == old(self).file_stream@[stream_index(
                old(self).file_stream@,
                file_name@,
            )].stream@.map_values(|s: FileSlice| s.slice@.len() as usize)),
    {
        proof {
            lemma_stream_index_exact(self.file_stream@, file_name@);
        }
        let name = file_name.to_owned();
        let mut j: usize = 0;
        while j < self.file_stream.len()
            invariant
                j <= self.file_stream@.len(),
                *self == *old(self),
                name@ == file_name@,
                stream_index(self.file_stream@.take(j as int), file_name@) < 0,
            decreases self.file_stream@.len() - j,
        {
            assert(self.file_stream@.take(j + 1).drop_last() =~= self.file_stream@.take(j as int));
            if self.file_stream[j].file_name == name {
                assert(stream_index(self.file_stream@.take(j + 1), file_name@) == j);
                proof {
                    lemma_stream_index_prefix(self.file_stream@, file_name@, (j + 1) as int);
                }
                let stream = &self.file_stream[j].stream;
                let mut sizes: Vec<usize> = Vec::new();
                let mut k: usize = 0;
                while k < stream.len()
                    invariant
                        k <= stream@.len(),
                        sizes@ == stream@.take(k as int).map_values(
                            |s: FileSlice| s.slice@.len() as usize,
                        ),
                    decreases stream@.len() - k,
                {
                    sizes.push(stream[k].slice.len());
                    assert(stream@.take(k + 1).map_values(|s: FileSlice| s.slice@.len() as usize)
                        =~= sizes@);
                    k += 1;
                }
                assert(stream@.take(k as int) =~= stream@);
                return Some(sizes);
            }
            j += 1;
        }
        proof {
            assert(self.file_stream@.take(j as int) =~= self.file_stream@);
        }
        None
    }
}

/// The stored name of `f`: the UTF-8 bytes of `file_name`.
pub open spec fn name_bytes(f: File) -> Seq<u8> {
    encode_utf8(f.file_name@)
}

/// The name length a header records for `f`: its byte length in 16 bits.
pub open spec fn name_len16(f: File) -> u16 {
    name_bytes(f).len() as u16
}

/// The local header for `f`: format version 2.0 (4.6 for ZIP64), the
/// encryption flag, deflate or stored, the file's date, time, CRC-32 and
/// size, the size of its encrypted bytes, and its stored name.
pub open spec fn local_header_model(is_zip64: bool, is_compress: bool, f: File) -> LocalHeaderFields {
    LocalHeaderFields {
        signature: swap32(LOCAL_HEADER_SIGNATURE),
        version_needed: swap16(
            if is_zip64 {
                0x002e
            } else {
                0x0014
            },
        ),
        general_flag: swap16(0x0001),
        compression_method: swap16(
            if is_compress {
                0x0008
            } else {
                0x0000
            },
        ),
        last_mod_time: swap16(f.last_mod_time),
        last_mod_date: swap16(f.last_mod_date),
        crc: swap32(f.crc),
        compressed_size: swap32(f.encrypt@.len() as u32),
        un_compressed_size: swap32(f.file_size),
        file_name_length: swap16(name_len16(f)),
        extra_field_length: swap16(0),
        file_name: name_bytes(f),
        extra_field: seq![],
    }
}

/// The member for `f`, starting at `offset`: its local header and its
/// encrypted bytes.
pub open spec fn file_entry_model(is_zip64: bool, is_compress: bool, f: File, offset: u32) -> EntryFields {
    EntryFields { local_header: local_header_model(is_zip64, is_compress, f), body: f.encrypt@, offset }
}

/// The members for `fs`, each starting where the previous ones end.
pub open spec fn entries_model(is_zip64: bool, is_compress: bool, fs: Seq<File>) -> Seq<EntryFields>
    decreases fs.len(),
{
    if fs.len() == 0 {
        seq![]
    } else {
        let prev = entries_model(is_zip64, is_compress, fs.drop_last());
        prev.push(file_entry_model(is_zip64, is_compress, fs.last(), entries_span(prev) as u32))
    }
}

/// The central directory for the members `es`, one entry per member.
pub open spec fn central_model(is_zip64: bool, es: Seq<EntryFields>) -> Seq<CentralEntryFields> {
    es.map_values(|e: EntryFields| central_entry_model(is_zip64, e.local_header, e.offset))
}

/// The archive `save` writes for the files `fs`: their members, the central
/// directory and the end record.
pub open spec fn archive_model(is_zip64: bool, is_compress: bool, fs: Seq<File>) -> ArchiveFields {
    let es = entries_model(is_zip64, is_compress, fs);
    let cs = central_model(is_zip64, es);
    ArchiveFields { file_entry: es, central_dir_entry: cs, end_of_cd: end_record_model(is_zip64, es, cs) }
}

/// The central directory size `save` will record for `fs`.
pub open spec fn planned_central_size(fs: Seq<File>) -> int
    decreases fs.len(),
{
    if fs.len() == 0 {
        0
    } else {
        planned_central_size(fs.drop_last()) + CENTRAL_ENTRY_FIXED_LEN + name_len16(fs.last())
    }
}

/// The size of the members `save` will write for `fs`: each file's
/// encrypted bytes are its compressed bytes plus the twelve-byte header.
pub open spec fn planned_span(fs: Seq<File>) -> int
    decreases fs.len(),
{
    if fs.len() == 0 {
        0
    } else {
        planned_span(fs.drop_last()) + LOCAL_HEADER_FIXED_LEN + name_len16(fs.last()) + ((12
            + fs.last().deflate@.len()) as u32)
    }
}

/// `save` can run: at most `MT_DRAWS` files (one seed is drawn per file),
/// and none of its 16-bit or 32-bit size sums overflows.
pub open spec fn save_fits(z: Zip) -> bool {
    &&& z.files@.len() <= MT_DRAWS
    &&& forall|k: int|
        0 <= k < z.files@.len() ==> CENTRAL_ENTRY_FIXED_LEN + #[trigger] name_len16(z.files@[k])
            <= 0xffff
    &&& planned_central_size(z.files@) <= 0xffffffff
    &&& planned_span(z.files@) <= 0xffffffff
}

/// The seed of the encryption header of the `k`-th file: the `k`-th value
/// drawn from a generator seeded with the archive's seed.
pub open spec fn member_seed(seed: u32, k: int) -> u32 {
    mt_outputs(seed, (k + 1) as nat)[k]
}

/// `g` is `f` with its compressed bytes encrypted as the `k`-th member of
/// archive `z`: a fresh cipher seeded with `member_seed`, the archive's
/// password, and the file's CRC-32 for the header check byte.
pub open spec fn is_encrypted_file(g: File, f: File, z: Zip, k: int) -> bool {
    &&& g.file_name == f.file_name
    &&& g.file_name_raw == f.file_name_raw
    &&& g.file_size == f.file_size
    &&& g.last_mod_time == f.last_mod_time
    &&& g.last_mod_date == f.last_mod_date
    &&& g.file_raw == f.file_raw
    &&& g.deflate == f.deflate
    &&& g.crc == f.crc
    &&& g.encrypt@ == encrypt_result(member_seed(z.seed, k), initial_keys(), f.deflate@, z.passwd@, f.crc).1
}

impl Zip {
    /// Builds the local header for `file`.
    pub fn make_local_header(is_zip64: bool, is_compress: bool, file: &File) -> (lh: LocalHeader)
        ensures
            lh@ == local_header_model(is_zip64, is_compress, *file),
    {
        let file_name = file.file_name.as_str().as_bytes_vec();
        let name_len = file_name.len();
        let lh = LocalHeader {
            signature: le_from_u32(LOCAL_HEADER_SIGNATURE),
            version_needed: le_from_u16(
                if is_zip64 {
                    0x002e
                } else {
                    0x0014
                },
            ),
            general_flag: le_from_u16(0x0001),
            compression_method: le_from_u16(
                if is_compress {
                    0x0008
                } else {
                    0x0000
                },
            ),
            last_mod_time: le_from_u16(file.last_mod_time),
            last_mod_date: le_from_u16(file.last_mod_date),
            crc: le_from_u32(file.crc),
            compressed_size: le_from_u32(#[verifier::truncate] (file.encrypt.len() as u32)),
            un_compressed_size: le_from_u32(file.file_size),
            file_name_length: le_from_u16(#[verifier::truncate] (name_len as u16)),
            extra_field_length: le_from_u16(0x0000),
            file_name,
            extra_field: vec![],
        };
        assert(lh@ =~= local_header_model(is_zip64, is_compress, *file));
        lh
    }

    /// Builds the central directory entry for the member whose local header is
    /// `local_header` and which starts at `offset`.
    pub fn make_central_directory_entry(
        is_zip64: bool,
        local_header: &LocalHeader,
        offset: u32,
    ) -> (cd: CentralDirectoryEntry)
        ensures
            cd@ == central_entry_model(is_zip64, local_header@, offset),
    {
        let cd = CentralDirectoryEntry {
            signature: le_from_u32(CENTRAL_DIRECTORY_ENTRY_SIGNATURE),
            version_made_by: le_from_u16(0x003f),
            version_needed: local_header.version_needed,
            general_flag: local_header.general_flag,
            compression_method: local_header.compression_method,
            last_mod_time: local_header.last_mod_time,
            last_mod_date: local_header.last_mod_date,
            crc: local_header.crc,
            compressed_size: local_header.compressed_size,
            un_compressed_size: local_header.un_compressed_size,
            file_name_length: local_header.file_name_length,
            extra_field_length: local_header.extra_field_length,
            file_comment_length: le_from_u16(0x0000),
            disk_number_start: le_from_u16(
                if is_zip64 {
                    0xffff
                } else {
                    0x0000
                },
            ),
            internal_file_attributes: le_from_u16(0x0000),
            external_file_attributes: le_from_u32(0x00000000),
            relative_offset_of_local_header: le_from_u32(
                if is_zip64 {
                    0xffffffff
                } else {
                    offset
                },
            ),
            file_name: vstd::slice::slice_to_vec(local_header.file_name.as_slice()),
            extra_field: vec![],
            file_comment: vec![],
        };
        assert(cd@ =~= central_entry_model(is_zip64, local_header@, offset));
        cd
    }

    /// Builds the end record for the members `file_entry` and the central
    /// directory `central_dir_entry`.
    pub fn make_end_of_central_directory(
        is_zip64: bool,
        file_entry: &Vec<FileEntry>,
        central_dir_entry: &Vec<CentralDirectoryEntry>,
    ) -> (eocd: EndOfCentralDirectory)
        requires
            end_record_fits(
                entry_views(file_entry@),
                central_views(central_dir_entry@),
            ),
        ensures
            eocd@ == end_record_model(
                is_zip64,
                entry_views(file_entry@),
                central_views(central_dir_entry@),
            ),
    {
        let ghost es = entry_views(file_entry@);
        let ghost cs = central_views(central_dir_entry@);
        let mut size_of_cd: u32 = 0;
        let mut i: usize = 0;
        while i < central_dir_entry.len()
            invariant
                i <= central_dir_entry@.len(),
                cs == central_views(central_dir_entry@),
                end_record_fits(es, cs),
                size_of_cd == central_dir_size(cs.take(i as int)),
            decreases central_dir_entry@.len() - i,
        {
            let cd = &central_dir_entry[i];
            assert(cs.take(i + 1).drop_last() =~= cs.take(i as int));
            assert(cs[i as int] == cd@);
            assert(central_entry_size(cs[i as int]) <= 0xffff);
            proof {
                lemma_central_dir_size_prefix(cs, i + 1);
            }
            size_of_cd += (46 + le_from_u16(cd.file_name_length) + cd.extra_field_length
                + cd.file_comment_length) as u32;
            i += 1;
        }
        assert(cs.take(i as int) =~= cs);
        let mut offset_of_cd: u32 = 0;
        let mut j: usize = 0;
        while j < file_entry.len()
            invariant
                j <= file_entry@.len(),
                es == entry_views(file_entry@),
                end_record_fits(es, cs),
                offset_of_cd == entries_span(es.take(j as int)),
            decreases file_entry@.len() - j,
        {
            let fe = &file_entry[j];
            assert(es.take(j + 1).drop_last() =~= es.take(j as int));
            assert(es[j as int] == fe@);
            assert(entry_name_extra(es[j as int]) <= 0xffff);
            proof {
                lemma_entries_span_prefix(es, j + 1);
            }
            offset_of_cd += 30 + (le_from_u16(fe.local_header.file_name_length)
                + fe.local_header.extra_field_length) as u32 + fe.body.len() as u32;
            j += 1;
        }
        assert(es.take(j as int) =~= es);
        let eocd = EndOfCentralDirectory {
            signature: le_from_u32(END_OF_CENTRAL_DIRECTORY_SIGNATURE),
            num_of_disk: le_from_u16(
                if is_zip64 {
                    0xffff
                } else {
                    0x0000
                },
            ),
            disk_where_cd_start: le_from_u16(
                if is_zip64 {
                    0xffff
                } else {
                    0x0000
                },
            ),
            num_of_cd_on_disk: le_from_u16(
                if is_zip64 {
                    0xffff
                } else {
                    central_dir_entry.len() as u16
                },
            ),
            num_of_cd: le_from_u16(
                if is_zip64 {
                    0xffff
                } else {
                    central_dir_entry.len() as u16
                },
            ),
            size_of_cd: le_from_u32(
                if is_zip64 {
                    0xffffffff
                } else {
                    size_of_cd
                },
            ),
            offset_of_cd: le_from_u32(
                if is_zip64 {
                    0xffffffff
                } else {
                    offset_of_cd
                },
            ),
            zip_comment_length: le_from_u16(0x0000),
            zip_comment: vec![],
        };
        assert(eocd@ =~= end_record_model(is_zip64, es, cs));
        eocd
    }

    /// Whether `save` can run on this archive: exactly when `save_fits`
    /// holds.
    pub fn can_save(&self) -> (ok: bool)
        ensures
            ok == save_fits(*self),
    {
        let n = self.files.len();
        if n > MT_DRAWS {
            return false;
        }
        let mut central: u64 = 0;
        let mut span: u64 = 0;
        let mut k: usize = 0;
        while k < n
            invariant
                n == self.files@.len(),
                n <= MT_DRAWS,
                k <= n,
                central == planned_central_size(self.files@.take(k as int)),
                span == planned_span(self.files@.take(k as int)),
                central <= k * 0x10000,
                span <= k * 0x2_0000_0000,
                forall|j: int|
                    0 <= j < k ==> CENTRAL_ENTRY_FIXED_LEN + #[trigger] name_len16(self.files@[j]) <= 0xffff,
            decreases n - k,
        {
            let f = &self.files[k];
            let name_len = f.file_name.as_str().as_bytes_vec().len();
            let nl: u16 = #[verifier::truncate] (name_len as u16);
            if 46 + nl as u32 > 0xffff {
                proof {
                    assert(name_len16(self.files@[k as int]) == nl);
                }
                return false;
            }
            let wide: u128 = f.deflate.len() as u128 + 12;
            assert((wide % 0x1_0000_0000) as u32 == wide as u32) by (bit_vector);
            let bl: u32 = (wide % 0x1_0000_0000) as u32;
            assert(self.files@.take(k + 1).drop_last() =~= self.files@.take(k as int));
            central = central + 46 + nl as u64;
            span = span + 30 + nl as u64 + bl as u64;
            k += 1;
        }
        assert(self.files@.take(n as int) =~= self.files@);
        central <= 0xffffffff && span <= 0xffffffff
    }

    /// Encrypts every file's compressed bytes (the `k`-th with a cipher
    /// seeded by the `k`-th value drawn from the archive's seed), then
    /// writes the archive: the members, each starting where the previous
    /// ones end, the central directory and the end record.
    pub fn save(&mut self) -> (zip: Vec<u8>)
        requires
            save_fits(*old(self)),
        ensures
            same_settings(*final(self), *old(self)),
            final(self).file_stream == old(self).file_stream,
            final(self).files@.len() == old(self).files@.len(),
            forall|k: int|
                0 <= k < old(self).files@.len() ==> is_encrypted_file(
                    #[trigger] final(self).files@[k],
                    old(self).files@[k],
                    *old(self),
                    k,
                ),
            zip@ == archive_bytes(
                archive_model(old(self).is_zip64, old(self).is_compress, final(self).files@),
            ),
    {
        let ghost z0 = *self;
        let n = self.files.len();
        let mut mt = MersenneTwister::new(self.seed);
        let mut k: usize = 0;
        while k < n
            invariant
                n == z0.files@.len(),
                n <= MT_DRAWS,
                k <= n,
                same_settings(*self, z0),
                self.file_stream == z0.file_stream,
                self.files@.len() == n,
                forall|j: int|
                    0 <= j < k ==> is_encrypted_file(#[trigger] self.files@[j], z0.files@[j], z0, j),
                forall|j: int| k <= j < n ==> #[trigger] self.files@[j] == z0.files@[j],
                mt@ == (mt_state_after(z0.seed, k as nat), k as nat),
            decreases n - k,
        {
            proof {
                lemma_fresh_can_draw(z0.seed, k as nat);
                lemma_fresh_step(z0.seed, k as nat);
            }
            let member = mt.next();
            proof {
                lemma_outputs_len(z0.seed, k as nat);
                assert(member == member_seed(z0.seed, k as int));
            }
            encrypt_file(&mut self.files[k], member, &self.passwd);
            k += 1;
        }
        let ghost fs = self.files@;
        proof {
            lemma_planned_encrypted(fs, z0);
        }
        let mut file_entry: Vec<FileEntry> = vec![];
        let mut central_dir_entry: Vec<CentralDirectoryEntry> = vec![];
        let mut offset: u32 = 0;
        let mut k: usize = 0;
        while k < n
            invariant
                self.files@ == fs,
                n == fs.len(),
                k <= n,
                forall|j: int|
                    0 <= j < n ==> (#[trigger] fs[j]).encrypt@.len() == 12 + fs[j].deflate@.len(),
                forall|j: int|
                    0 <= j < n ==> CENTRAL_ENTRY_FIXED_LEN + #[trigger] name_len16(fs[j]) <= 0xffff,
                planned_central_size(fs) <= 0xffffffff,
                planned_span(fs) <= 0xffffffff,
                entry_views(file_entry@) == entries_model(self.is_zip64, self.is_compress, fs.take(k as int)),
                central_views(central_dir_entry@) == central_model(
                    self.is_zip64,
                    entries_model(self.is_zip64, self.is_compress, fs.take(k as int)),
                ),
                offset == entries_span(entries_model(self.is_zip64, self.is_compress, fs.take(k as int))),
                offset == planned_span(fs.take(k as int)),
                central_dir_size(central_views(central_dir_entry@)) == planned_central_size(fs.take(k as int)),
                forall|j: int|
                    0 <= j < central_views(central_dir_entry@).len() ==> #[trigger] central_entry_size(
                        central_views(central_dir_entry@)[j],
                    ) <= 0xffff,
                forall|j: int|
                    0 <= j < entry_views(file_entry@).len() ==> #[trigger] entry_name_extra(
                        entry_views(file_entry@)[j],
                    ) <= 0xffff,
            decreases n - k,
        {
            let ghost es = entries_model(self.is_zip64, self.is_compress, fs.take(k as int));
            let ghost cs = central_views(central_dir_entry@);
            proof {
                lemma_planned_span_prefix(fs, k + 1);
                assert(fs.take(k + 1).drop_last() =~= fs.take(k as int));
                assert(fs.take(k + 1).last() == fs[k as int]);
            }
            offset = push_member(
                &mut file_entry,
                &mut central_dir_entry,
                offset,
                self.is_zip64,
                self.is_compress,
                &self.files[k],
            );
            proof {
                let es1 = entries_model(self.is_zip64, self.is_compress, fs.take(k + 1));
                assert(es1 == es.push(file_entry_model(self.is_zip64, self.is_compress, fs[k as int], entries_span(es) as u32)));
                assert(es1.drop_last() =~= es);
                assert(central_model(self.is_zip64, es.push(file_entry_model(self.is_zip64, self.is_compress, fs[k as int], entries_span(es) as u32)))
                    =~= central_model(self.is_zip64, es).push(central_entry_model(self.is_zip64, local_header_model(self.is_zip64, self.is_compress, fs[k as int]), entries_span(es) as u32)));
                assert(central_views(central_dir_entry@).drop_last() =~= cs);
            }
            k += 1;
        }
        assert(fs.take(n as int) =~= fs);
        let end_of_cd = Zip::make_end_of_central_directory(
            self.is_zip64,
            &file_entry,
            &central_dir_entry,
        );
        let archive = Archive { file_entry, central_dir_entry, end_of_cd };
        assert(archive@ =~= archive_model(z0.is_zip64, z0.is_compress, fs));
        let zip = self.check_archive(archive);
        zip
    }

    /// Serializes `archive`: every member, then every central directory
    /// entry, then the end record.
    pub fn check_archive(&mut self, archive: Archive) -> (zip: Vec<u8>)
        ensures
            *final(self) == *old(self),
            zip@ == archive_bytes(archive@),
    {
        serialize_archive(&archive)
    }
}

/// Encrypts `file`'s compressed bytes with a fresh cipher seeded by `seed`,
/// the password `passwd` and the file's CRC-32.
fn encrypt_file(file: &mut File, seed: u32, passwd: &String)
    ensures
        final(file).file_name == old(file).file_name,
        final(file).file_name_raw == old(file).file_name_raw,
        final(file).file_size == old(file).file_size,
        final(file).last_mod_time == old(file).last_mod_time,
        final(file).last_mod_date == old(file).last_mod_date,
        final(file).file_raw == old(file).file_raw,
        final(file).deflate == old(file).deflate,
        final(file).crc == old(file).crc,
        final(file).encrypt@ == encrypt_result(seed, initial_keys(), old(file).deflate@, passwd@, old(file).crc).1,
{
    let mut zc = ZipCrypto::new(seed);
    file.encrypt = zc.encrypt(file.deflate.as_slice(), passwd.as_str(), file.crc);
}

/// Appends the member for `file`, starting at `offset`, and its central
/// directory entry; returns the offset where the member ends.
fn push_member(
    file_entry: &mut Vec<FileEntry>,
    central_dir_entry: &mut Vec<CentralDirectoryEntry>,
    offset: u32,
    is_zip64: bool,
    is_compress: bool,
    file: &File,
) -> (next: u32)
    requires
        offset + LOCAL_HEADER_FIXED_LEN + name_len16(*file) + (file.encrypt@.len() as u32) <= 0xffffffff,
    ensures
        entry_views(final(file_entry)@) == entry_views(old(file_entry)@).push(
            file_entry_model(is_zip64, is_compress, *file, offset),
        ),
        central_views(final(central_dir_entry)@) == central_views(old(central_dir_entry)@).push(
            central_entry_model(is_zip64, local_header_model(is_zip64, is_compress, *file), offset),
        ),
        entry_span(file_entry_model(is_zip64, is_compress, *file, offset)) == LOCAL_HEADER_FIXED_LEN
            + name_len16(*file) + (file.encrypt@.len() as u32),
        next == offset + entry_span(file_entry_model(is_zip64, is_compress, *file, offset)),
        entry_name_extra(file_entry_model(is_zip64, is_compress, *file, offset)) <= 0xffff,
        central_entry_size(
            central_entry_model(is_zip64, local_header_model(is_zip64, is_compress, *file), offset),
        ) == CENTRAL_ENTRY_FIXED_LEN + name_len16(*file),
{
    let body = vstd::slice::slice_to_vec(file.encrypt.as_slice());
    let local_header = Zip::make_local_header(is_zip64, is_compress, file);
    let central_dir = Zip::make_central_directory_entry(is_zip64, &local_header, offset);
    proof {
        lemma_swap16_involution(name_len16(*file));
        lemma_swap_zero();
    }
    let file_entry_length = 30 + (le_from_u16(local_header.file_name_length)
        + local_header.extra_field_length) as u32 + body.len() as u32;
    let entry = FileEntry { local_header, body, offset };
    let ghost fe0 = file_entry@;
    let ghost cd0 = central_dir_entry@;
    file_entry.push(entry);
    central_dir_entry.push(central_dir);
    assert(entry_views(file_entry@) =~= entry_views(fe0).push(entry@));
    assert(central_views(central_dir_entry@) =~= central_views(cd0).push(central_dir@));
    offset + file_entry_length
}

/// The sizes `save_fits` bounds depend only on the names and compressed
/// bytes, which encryption keeps; and each encrypted member is twelve bytes
/// longer than its compressed bytes.
proof fn lemma_planned_encrypted(fs: Seq<File>, z0: Zip)
    requires
        save_fits(z0),
        fs.len() == z0.files@.len(),
        forall|j: int| 0 <= j < fs.len() ==> is_encrypted_file(#[trigger] fs[j], z0.files@[j], z0, j),
    ensures
        forall|j: int|
            0 <= j < fs.len() ==> (#[trigger] fs[j]).encrypt@.len() == 12 + fs[j].deflate@.len(),
        forall|j: int| 0 <= j < fs.len() ==> CENTRAL_ENTRY_FIXED_LEN + #[trigger] name_len16(fs[j]) <= 0xffff,
        planned_central_size(fs) == planned_central_size(z0.files@),
        planned_span(fs) == planned_span(z0.files@),
{
    assert forall|j: int| 0 <= j < fs.len() implies (#[trigger] fs[j]).encrypt@.len() == 12
        + fs[j].deflate@.len() by {
        let f = z0.files@[j];
        lemma_encrypt_len(member_seed(z0.seed, j), initial_keys(), f.deflate@, z0.passwd@, f.crc);
    }
    assert forall|j: int| 0 <= j < fs.len() implies CENTRAL_ENTRY_FIXED_LEN + #[trigger] name_len16(fs[j])
        <= 0xffff by {
        assert(name_len16(fs[j]) == name_len16(z0.files@[j]));
    }
    lemma_planned_same(fs, z0.files@);
}

/// Files with the same names and compressed bytes plan the same sizes.
proof fn lemma_planned_same(a: Seq<File>, b: Seq<File>)
    requires
        a.len() == b.len(),
        forall|j: int|
            0 <= j < a.len() ==> (#[trigger] a[j]).file_name == b[j].file_name && a[j].deflate
                == b[j].deflate,
    ensures
        planned_central_size(a) == planned_central_size(b),
        planned_span(a) == planned_span(b),
    decreases a.len(),
{
    if a.len() > 0 {
        assert(a.last().file_name == b.last().file_name);
        lemma_planned_same(a.drop_last(), b.drop_last());
    }
}

/// There is one member per file.
pub proof fn lemma_entries_model_len(is_zip64: bool, is_compress: bool, fs: Seq<File>)
    ensures
        entries_model(is_zip64, is_compress, fs).len() == fs.len(),
    decreases fs.len(),
{
    if fs.len() > 0 {
        lemma_entries_model_len(is_zip64, is_compress, fs.drop_last());
    }
}

/// The `j`-th member is built from the `j`-th file, at the offset where the
/// members before it end.
pub proof fn lemma_entries_model_index(is_zip64: bool, is_compress: bool, fs: Seq<File>, j: int)
    requires
        0 <= j < fs.len(),
    ensures
        entries_model(is_zip64, is_compress, fs)[j] == file_entry_model(
            is_zip64,
            is_compress,
            fs[j],
            entries_span(entries_model(is_zip64, is_compress, fs.take(j))) as u32,
        ),
        entries_model(is_zip64, is_compress, fs).take(j) == entries_model(is_zip64, is_compress, fs.take(j)),
    decreases fs.len(),
{
    lemma_entries_model_len(is_zip64, is_compress, fs.drop_last());
    if j == fs.len() - 1 {
        assert(fs.drop_last() =~= fs.take(j));
        assert(entries_model(is_zip64, is_compress, fs).take(j) =~= entries_model(is_zip64, is_compress, fs.drop_last()));
    } else {
        lemma_entries_model_index(is_zip64, is_compress, fs.drop_last(), j);
        assert(fs.drop_last().take(j) =~= fs.take(j));
        assert(fs.drop_last()[j] == fs[j]);
        assert(entries_model(is_zip64, is_compress, fs).take(j) =~= entries_model(is_zip64, is_compress, fs.drop_last()).take(j));
    }
}

/// Planned sizes are never negative, so a prefix of the files plans no more
/// than the whole.
pub proof fn lemma_planned_span_prefix(fs: Seq<File>, i: int)
    requires
        0 <= i <= fs.len(),
    ensures
        0 <= planned_span(fs.take(i)) <= planned_span(fs),
        0 <= planned_central_size(fs.take(i)) <= planned_central_size(fs),
    decreases fs.len() - i,
{
    if i < fs.len() {
        lemma_planned_span_prefix(fs, i + 1);
        assert(fs.take(i + 1).drop_last() =~= fs.take(i));
    } else {
        assert(fs.take(i) =~= fs);
    }
    lemma_planned_nonneg(fs.take(i));
}

/// Planned sizes are never negative.
pub proof fn lemma_planned_nonneg(fs: Seq<File>)
    ensures
        planned_span(fs) >= 0,
        planned_central_size(fs) >= 0,
    decreases fs.len(),
{
    if fs.len() > 0 {
        lemma_planned_nonneg(fs.drop_last());
    }
}

/// The stream chosen for `name` is the first whose name equals `name`
/// exactly; the index is negative exactly when no stream has that name.
pub proof fn lemma_stream_index_exact(streams: Seq<FileStream>, name: Seq<char>)
    ensures
        -1 <= stream_index(streams, name) < streams.len(),
        stream_index(streams, name) >= 0 ==> streams[stream_index(streams, name)].file_name@ == name,
        forall|k: int|
            0 <= k < stream_index(streams, name) ==> (#[trigger] streams[k]).file_name@ != name,
        stream_index(streams, name) < 0 <==> (forall|k: int|
            0 <= k < streams.len() ==> (#[trigger] streams[k]).file_name@ != name),
    decreases streams.len(),
{
    if streams.len() > 0 {
        let prev = streams.drop_last();
        lemma_stream_index_exact(prev, name);
        assert forall|k: int| 0 <= k < prev.len() implies prev[k] == #[trigger] streams[k] by {}
        if stream_index(streams, name) < 0 {
            assert forall|k: int| 0 <= k < streams.len() implies (#[trigger] streams[k]).file_name@
                != name by {
                if k < prev.len() {
                    assert(prev[k] == streams[k]);
                }
            }
        }
    }
}

/// Once a prefix of the streams holds one named `name`, the first such
/// stream of the whole sequence is the one in that prefix.
pub proof fn lemma_stream_index_prefix(streams: Seq<FileStream>, name: Seq<char>, n: int)
    requires
        0 <= n <= streams.len(),
        stream_index(streams.take(n), name) >= 0,
    ensures
        stream_index(streams, name) == stream_index(streams.take(n), name),
    decreases streams.len() - n,
{
    if n < streams.len() {
        assert(streams.take(n + 1).drop_last() =~= streams.take(n));
        lemma_stream_index_prefix(streams, name, n + 1);
    } else {
        assert(streams.take(n) =~= streams);
    }
}

} // verus!
