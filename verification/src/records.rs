use vstd::prelude::*;

use crate::byteorder::{push_u16_be, push_u32_be, swap16, swap32, u16_be_bytes, u32_be_bytes};

verus! {

/// Signature of a local file header (`PK\x03\x04` read little-endian).
pub const LOCAL_HEADER_SIGNATURE: u32 = 0x04034b50;

/// Signature of a central directory entry (`PK\x01\x02` read little-endian).
pub const CENTRAL_DIRECTORY_ENTRY_SIGNATURE: u32 = 0x02014b50;

/// Signature of the end of central directory record (`PK\x05\x06`).
pub const END_OF_CENTRAL_DIRECTORY_SIGNATURE: u32 = 0x06054b50;

/// Signature of a data descriptor (`PK\x07\x08`).
pub const DATA_DESCRIPTOR_SIGNATURE: u32 = 0x08074b50;

/// Signature of the ZIP64 end of central directory record (`PK\x06\x06`).
pub const ZIP64_END_OF_CENTRAL_DIRECTORY_RECORD_SIGNATURE: u32 = 0x06064b50;

/// Signature of the ZIP64 end of central directory locator (`PK\x06\x07`).
pub const ZIP64_END_OF_CENTRAL_DIRECTORY_LOCATOR_SIGNATURE: u32 = 0x07064b50;

/// Length in bytes of the fixed part of a serialized local file header.
pub const LOCAL_HEADER_FIXED_LEN: u32 = 30;

/// Length in bytes of the fixed part of a serialized central directory entry.
pub const CENTRAL_ENTRY_FIXED_LEN: u16 = 46;

/// Length in bytes of a serialized end of central directory record.
pub const END_RECORD_LEN: u32 = 22;

/// A local file header. Every numeric field holds the byte-swapped value, so
/// that writing it most significant byte first puts the ZIP field on disk
/// little-endian.
pub struct LocalHeader {
    pub signature: u32,
    pub version_needed: u16,
    pub general_flag: u16,
    pub compression_method: u16,
    pub last_mod_time: u16,
    pub last_mod_date: u16,
    pub crc: u32,
    pub compressed_size: u32,
    pub un_compressed_size: u32,
    pub file_name_length: u16,
    pub extra_field_length: u16,
    pub file_name: Vec<u8>,
    pub extra_field: Vec<u8>,
}

/// A central directory entry; numeric fields hold byte-swapped values.
pub struct CentralDirectoryEntry {
    pub signature: u32,
    pub version_made_by: u16,
    pub version_needed: u16,
    pub general_flag: u16,
    pub compression_method: u16,
    pub last_mod_time: u16,
    pub last_mod_date: u16,
    pub crc: u32,
    pub compressed_size: u32,
    pub un_compressed_size: u32,
    pub file_name_length: u16,
    pub extra_field_length: u16,
    pub file_comment_length: u16,
    pub disk_number_start: u16,
    pub internal_file_attributes: u16,
    pub external_file_attributes: u32,
    pub relative_offset_of_local_header: u32,
    pub file_name: Vec<u8>,
    pub extra_field: Vec<u8>,
    pub file_comment: Vec<u8>,
}

/// The end of central directory record; numeric fields hold byte-swapped
/// values.
pub struct EndOfCentralDirectory {
    pub signature: u32,
    pub num_of_disk: u16,
    pub disk_where_cd_start: u16,
    pub num_of_cd_on_disk: u16,
    pub num_of_cd: u16,
    pub size_of_cd: u32,
    pub offset_of_cd: u32,
    pub zip_comment_length: u16,
    pub zip_comment: Vec<u8>,
}

/// A data descriptor record (declared for the format; the writer emits none).
pub struct DataDescriptor {
    pub signature: u32,
    pub crc: u32,
    pub compressed_size: u32,
    pub un_compressed_size: u32,
}

/// The ZIP64 end of central directory record (declared for the format; the
/// writer emits none).
pub struct Zip64EndOfCentralDirectoryRecord {
    pub signature: u32,
    pub own_size: u64,
    pub version_made_by: u16,
    pub version_needed: u16,
    pub num_of_disk: u32,
    pub disk_where_cd_start: u32,
    pub num_of_cd_on_disk: u64,
    pub num_of_cd: u64,
    pub size_of_cd: u64,
    pub offset_of_cd: u64,
    pub zip64_extensible_data_sector: Vec<u8>,
}

/// The ZIP64 end of central directory locator (declared for the format; the
/// writer emits none).
pub struct Zip64EndOfCentralDirectoryLocator {
    pub signature: u32,
    pub disk_where_zip64_cd_start: u32,
    pub relative_offset_of_zip64_eocd_record: u64,
    pub total_num_of_disk: u32,
}

/// One member of the archive: its local header, its stored bytes, and the
/// offset of the header in the archive.
pub struct FileEntry {
    pub local_header: LocalHeader,
    pub body: Vec<u8>,
    pub offset: u32,
}

/// A whole archive before serialization.
pub struct Archive {
    pub file_entry: Vec<FileEntry>,
    pub central_dir_entry: Vec<CentralDirectoryEntry>,
    pub end_of_cd: EndOfCentralDirectory,
}

/// The fields of a local file header, with byte vectors as sequences.
pub struct LocalHeaderFields {
    pub signature: u32,
    pub version_needed: u16,
    pub general_flag: u16,
    pub compression_method: u16,
    pub last_mod_time: u16,
    pub last_mod_date: u16,
    pub crc: u32,
    pub compressed_size: u32,
    pub un_compressed_size: u32,
    pub file_name_length: u16,
    pub extra_field_length: u16,
    pub file_name: Seq<u8>,
    pub extra_field: Seq<u8>,
}

/// The fields of a central directory entry, with byte vectors as sequences.
pub struct CentralEntryFields {
    pub signature: u32,
    pub version_made_by: u16,
    pub version_needed: u16,
    pub general_flag: u16,
    pub compression_method: u16,
    pub last_mod_time: u16,
    pub last_mod_date: u16,
    pub crc: u32,
    pub compressed_size: u32,
    pub un_compressed_size: u32,
    pub file_name_length: u16,
    pub extra_field_length: u16,
    pub file_comment_length: u16,
    pub disk_number_start: u16,
    pub internal_file_attributes: u16,
    pub external_file_attributes: u32,
    pub relative_offset_of_local_header: u32,
    pub file_name: Seq<u8>,
    pub extra_field: Seq<u8>,
    pub file_comment: Seq<u8>,
}

/// The fields of the end of central directory record.
pub struct EndRecordFields {
    pub signature: u32,
    pub num_of_disk: u16,
    pub disk_where_cd_start: u16,
    pub num_of_cd_on_disk: u16,
    pub num_of_cd: u16,
    pub size_of_cd: u32,
    pub offset_of_cd: u32,
    pub zip_comment_length: u16,
    pub zip_comment: Seq<u8>,
}

/// The fields of an archive member.
pub struct EntryFields {
    pub local_header: LocalHeaderFields,
    pub body: Seq<u8>,
    pub offset: u32,
}

/// The fields of a whole archive.
pub struct ArchiveFields {
    pub file_entry: Seq<EntryFields>,
    pub central_dir_entry: Seq<CentralEntryFields>,
    pub end_of_cd: EndRecordFields,
}

impl View for LocalHeader {
    type V = LocalHeaderFields;

    open spec fn view(&self) -> LocalHeaderFields {
        LocalHeaderFields {
            signature: self.signature,
            version_needed: self.version_needed,
            general_flag: self.general_flag,
            compression_method: self.compression_method,
            last_mod_time: self.last_mod_time,
            last_mod_date: self.last_mod_date,
            crc: self.crc,
            compressed_size: self.compressed_size,
            un_compressed_size: self.un_compressed_size,
            file_name_length: self.file_name_length,
            extra_field_length: self.extra_field_length,
            file_name: self.file_name@,
            extra_field: self.extra_field@,
        }
    }
}

impl View for CentralDirectoryEntry {
    type V = CentralEntryFields;

    open spec fn view(&self) -> CentralEntryFields {
        CentralEntryFields {
            signature: self.signature,
            version_made_by: self.version_made_by,
            version_needed: self.version_needed,
            general_flag: self.general_flag,
            compression_method: self.compression_method,
            last_mod_time: self.last_mod_time,
            last_mod_date: self.last_mod_date,
            crc: self.crc,
            compressed_size: self.compressed_size,
            un_compressed_size: self.un_compressed_size,
            file_name_length: self.file_name_length,
            extra_field_length: self.extra_field_length,
            file_comment_length: self.file_comment_length,
            disk_number_start: self.disk_number_start,
            internal_file_attributes: self.internal_file_attributes,
            external_file_attributes: self.external_file_attributes,
            relative_offset_of_local_header: self.relative_offset_of_local_header,
            file_name: self.file_name@,
            extra_field: self.extra_field@,
            file_comment: self.file_comment@,
        }
    }
}

impl View for EndOfCentralDirectory {
    type V = EndRecordFields;

    open spec fn view(&self) -> EndRecordFields {
        EndRecordFields {
            signature: self.signature,
            num_of_disk: self.num_of_disk,
            disk_where_cd_start: self.disk_where_cd_start,
            num_of_cd_on_disk: self.num_of_cd_on_disk,
            num_of_cd: self.num_of_cd,
            size_of_cd: self.size_of_cd,
            offset_of_cd: self.offset_of_cd,
            zip_comment_length: self.zip_comment_length,
            zip_comment: self.zip_comment@,
        }
    }
}

impl View for FileEntry {
    type V = EntryFields;

    open spec fn view(&self) -> EntryFields {
        EntryFields { local_header: self.local_header@, body: self.body@, offset: self.offset }
    }
}

/// The fields of each member, in order.
pub open spec fn entry_views(v: Seq<FileEntry>) -> Seq<EntryFields> {
    v.map_values(|e: FileEntry| e@)
}

/// The fields of each central directory entry, in order.
pub open spec fn central_views(v: Seq<CentralDirectoryEntry>) -> Seq<CentralEntryFields> {
    v.map_values(|c: CentralDirectoryEntry| c@)
}

impl View for Archive {
    type V = ArchiveFields;

    open spec fn view(&self) -> ArchiveFields {
        ArchiveFields {
            file_entry: entry_views(self.file_entry@),
            central_dir_entry: central_views(self.central_dir_entry@),
            end_of_cd: self.end_of_cd@,
        }
    }
}

/// The serialized local header: its fixed fields, each written most
/// significant byte first, then the file name.
#[verifier::opaque]
pub open spec fn local_header_bytes(h: LocalHeaderFields) -> Seq<u8> {
    u32_be_bytes(h.signature) + u16_be_bytes(h.version_needed) + u16_be_bytes(h.general_flag)
        + u16_be_bytes(h.compression_method) + u16_be_bytes(h.last_mod_time) + u16_be_bytes(
        h.last_mod_date,
    ) + u32_be_bytes(h.crc) + u32_be_bytes(h.compressed_size) + u32_be_bytes(h.un_compressed_size)
        + u16_be_bytes(h.file_name_length) + u16_be_bytes(h.extra_field_length) + h.file_name
}

/// A serialized archive member: its local header, then its stored bytes.
pub open spec fn entry_bytes(e: EntryFields) -> Seq<u8> {
    local_header_bytes(e.local_header) + e.body
}

/// The serialized central directory entry: its fixed fields, each written
/// most significant byte first, then the file name.
#[verifier::opaque]
pub open spec fn central_entry_bytes(c: CentralEntryFields) -> Seq<u8> {
    u32_be_bytes(c.signature) + u16_be_bytes(c.version_made_by) + u16_be_bytes(c.version_needed)
        + u16_be_bytes(c.general_flag) + u16_be_bytes(c.compression_method) + u16_be_bytes(
        c.last_mod_time,
    ) + u16_be_bytes(c.last_mod_date) + u32_be_bytes(c.crc) + u32_be_bytes(c.compressed_size)
        + u32_be_bytes(c.un_compressed_size) + u16_be_bytes(c.file_name_length) + u16_be_bytes(
        c.extra_field_length,
    ) + u16_be_bytes(c.file_comment_length) + u16_be_bytes(c.disk_number_start) + u16_be_bytes(
        c.internal_file_attributes,
    ) + u32_be_bytes(c.external_file_attributes) + u32_be_bytes(c.relative_offset_of_local_header)
        + c.file_name
}

/// The serialized end of central directory record: its fixed fields, each
/// written most significant byte first.
#[verifier::opaque]
pub open spec fn end_record_bytes(d: EndRecordFields) -> Seq<u8> {
    u32_be_bytes(d.signature) + u16_be_bytes(d.num_of_disk) + u16_be_bytes(d.disk_where_cd_start)
        + u16_be_bytes(d.num_of_cd_on_disk) + u16_be_bytes(d.num_of_cd) + u32_be_bytes(d.size_of_cd)
        + u32_be_bytes(d.offset_of_cd) + u16_be_bytes(d.zip_comment_length)
}

/// The serialized members, one after the other.
pub open spec fn entries_bytes(es: Seq<EntryFields>) -> Seq<u8>
    decreases es.len(),
{
    if es.len() == 0 {
        seq![]
    } else {
        entries_bytes(es.drop_last()) + entry_bytes(es.last())
    }
}

/// The serialized central directory entries, one after the other.
pub open spec fn central_entries_bytes(cs: Seq<CentralEntryFields>) -> Seq<u8>
    decreases cs.len(),
{
    if cs.len() == 0 {
        seq![]
    } else {
        central_entries_bytes(cs.drop_last()) + central_entry_bytes(cs.last())
    }
}

/// The serialized archive: the members, then the central directory, then
/// the end record.
pub open spec fn archive_bytes(a: ArchiveFields) -> Seq<u8> {
    entries_bytes(a.file_entry) + central_entries_bytes(a.central_dir_entry) + end_record_bytes(
        a.end_of_cd,
    )
}

/// The central directory entry for the member whose local header is `h`
/// and which starts at `offset` (ZIP64 archives record all ones instead).
pub open spec fn central_entry_model(is_zip64: bool, h: LocalHeaderFields, offset: u32) -> CentralEntryFields {
    CentralEntryFields {
        signature: swap32(CENTRAL_DIRECTORY_ENTRY_SIGNATURE),
        version_made_by: swap16(0x003f),
        version_needed: h.version_needed,
        general_flag: h.general_flag,
        compression_method: h.compression_method,
        last_mod_time: h.last_mod_time,
        last_mod_date: h.last_mod_date,
        crc: h.crc,
        compressed_size: h.compressed_size,
        un_compressed_size: h.un_compressed_size,
        file_name_length: h.file_name_length,
        extra_field_length: h.extra_field_length,
        file_comment_length: swap16(0),
        disk_number_start: swap16(
            if is_zip64 {
                0xffff
            } else {
                0
            },
        ),
        internal_file_attributes: swap16(0),
        external_file_attributes: swap32(0),
        relative_offset_of_local_header: swap32(
            if is_zip64 {
                0xffffffff
            } else {
                offset
            },
        ),
        file_name: h.file_name,
        extra_field: seq![],
        file_comment: seq![],
    }
}

/// The size a central directory entry claims for itself: the fixed part
/// plus the name, extra field and comment lengths its fields record.
pub open spec fn central_entry_size(c: CentralEntryFields) -> int {
    CENTRAL_ENTRY_FIXED_LEN + swap16(c.file_name_length) + c.extra_field_length
        + c.file_comment_length
}

/// The sum of the claimed sizes of the central directory entries.
pub open spec fn central_dir_size(cs: Seq<CentralEntryFields>) -> int
    decreases cs.len(),
{
    if cs.len() == 0 {
        0
    } else {
        central_dir_size(cs.drop_last()) + central_entry_size(cs.last())
    }
}

/// The name and extra field lengths a local header records.
pub open spec fn entry_name_extra(e: EntryFields) -> int {
    swap16(e.local_header.file_name_length) + e.local_header.extra_field_length
}

/// The size a member claims for itself: the fixed header, the recorded name
/// and extra field lengths, and the stored bytes (counted in 32 bits).
pub open spec fn entry_span(e: EntryFields) -> int {
    LOCAL_HEADER_FIXED_LEN + entry_name_extra(e) + (e.body.len() as u32)
}

/// The sum of the claimed sizes of the members.
pub open spec fn entries_span(es: Seq<EntryFields>) -> int
    decreases es.len(),
{
    if es.len() == 0 {
        0
    } else {
        entries_span(es.drop_last()) + entry_span(es.last())
    }
}

/// The sizes of the end record can be summed: every central entry's size
/// and every member's name and extra lengths fit 16 bits, and both totals
/// fit 32 bits.
pub open spec fn end_record_fits(es: Seq<EntryFields>, cs: Seq<CentralEntryFields>) -> bool {
    &&& forall|k: int| 0 <= k < cs.len() ==> #[trigger] central_entry_size(cs[k]) <= 0xffff
    &&& central_dir_size(cs) <= 0xffffffff
    &&& forall|k: int| 0 <= k < es.len() ==> #[trigger] entry_name_extra(es[k]) <= 0xffff
    &&& entries_span(es) <= 0xffffffff
}

/// The end record for the members `es` and the central directory `cs`: the
/// entry counts, the directory's size and its offset, which is where the
/// members end (ZIP64 archives record all ones instead).
pub open spec fn end_record_model(
    is_zip64: bool,
    es: Seq<EntryFields>,
    cs: Seq<CentralEntryFields>,
) -> EndRecordFields {
    EndRecordFields {
        signature: swap32(END_OF_CENTRAL_DIRECTORY_SIGNATURE),
        num_of_disk: swap16(
            if is_zip64 {
                0xffff
            } else {
                0
            },
        ),
        disk_where_cd_start: swap16(
            if is_zip64 {
                0xffff
            } else {
                0
            },
        ),
        num_of_cd_on_disk: swap16(
            if is_zip64 {
                0xffff
            } else {
                cs.len() as u16
            },
        ),
        num_of_cd: swap16(
            if is_zip64 {
                0xffff
            } else {
                cs.len() as u16
            },
        ),
        size_of_cd: swap32(
            if is_zip64 {
                0xffffffff
            } else {
                central_dir_size(cs) as u32
            },
        ),
        offset_of_cd: swap32(
            if is_zip64 {
                0xffffffff
            } else {
                entries_span(es) as u32
            },
        ),
        zip_comment_length: swap16(0),
        zip_comment: seq![],
    }
}

/// Sizes are never negative, so a prefix of the central directory claims
/// no more than the whole.
pub proof fn lemma_central_dir_size_prefix(cs: Seq<CentralEntryFields>, i: int)
    requires
        0 <= i <= cs.len(),
    ensures
        0 <= central_dir_size(cs.take(i)) <= central_dir_size(cs),
    decreases cs.len() - i,
{
    if i < cs.len() {
        lemma_central_dir_size_prefix(cs, i + 1);
        assert(cs.take(i + 1).drop_last() =~= cs.take(i));
    } else {
        assert(cs.take(i) =~= cs);
    }
    lemma_central_dir_size_nonneg(cs.take(i));
}

/// Central directory sizes are never negative.
pub proof fn lemma_central_dir_size_nonneg(cs: Seq<CentralEntryFields>)
    ensures
        central_dir_size(cs) >= 0,
    decreases cs.len(),
{
    if cs.len() > 0 {
        lemma_central_dir_size_nonneg(cs.drop_last());
    }
}

/// Member sizes are never negative, so a prefix of the members claims no
/// more than the whole.
pub proof fn lemma_entries_span_prefix(es: Seq<EntryFields>, i: int)
    requires
        0 <= i <= es.len(),
    ensures
        0 <= entries_span(es.take(i)) <= entries_span(es),
    decreases es.len() - i,
{
    if i < es.len() {
        lemma_entries_span_prefix(es, i + 1);
        assert(es.take(i + 1).drop_last() =~= es.take(i));
    } else {
        assert(es.take(i) =~= es);
    }
    lemma_entries_span_nonneg(es.take(i));
}

/// Member spans are never negative.
pub proof fn lemma_entries_span_nonneg(es: Seq<EntryFields>)
    ensures
        entries_span(es) >= 0,
    decreases es.len(),
{
    if es.len() > 0 {
        lemma_entries_span_nonneg(es.drop_last());
    }
}

/// A serialized local header takes `LOCAL_HEADER_FIXED_LEN` bytes plus its
/// name, and begins with its signature.
pub proof fn lemma_local_header_bytes(h: LocalHeaderFields)
    ensures
        local_header_bytes(h).len() == LOCAL_HEADER_FIXED_LEN + h.file_name.len(),
        local_header_bytes(h).subrange(0, 4) == u32_be_bytes(h.signature),
{
    reveal(local_header_bytes);
    assert(local_header_bytes(h).subrange(0, 4) =~= u32_be_bytes(h.signature));
}

/// A serialized central directory entry takes `CENTRAL_ENTRY_FIXED_LEN`
/// bytes plus its name.
pub proof fn lemma_central_entry_bytes(c: CentralEntryFields)
    ensures
        central_entry_bytes(c).len() == CENTRAL_ENTRY_FIXED_LEN + c.file_name.len(),
{
    reveal(central_entry_bytes);
}

/// A serialized end record takes `END_RECORD_LEN` bytes.
pub proof fn lemma_end_record_bytes(d: EndRecordFields)
    ensures
        end_record_bytes(d).len() == END_RECORD_LEN,
{
    reveal(end_record_bytes);
}

/// Where each field of a serialized local header stands, in ZIP's order:
/// every numeric field at its fixed offset, written most significant byte
/// first, then the name (the extra field is not written).
pub proof fn lemma_local_header_layout(h: LocalHeaderFields)
    ensures
        local_header_bytes(h).len() == 30 + h.file_name.len(),
        local_header_bytes(h).subrange(0, 4) == u32_be_bytes(h.signature),
        local_header_bytes(h).subrange(4, 6) == u16_be_bytes(h.version_needed),
        local_header_bytes(h).subrange(6, 8) == u16_be_bytes(h.general_flag),
        local_header_bytes(h).subrange(8, 10) == u16_be_bytes(h.compression_method),
        local_header_bytes(h).subrange(10, 12) == u16_be_bytes(h.last_mod_time),
        local_header_bytes(h).subrange(12, 14) == u16_be_bytes(h.last_mod_date),
        local_header_bytes(h).subrange(14, 18) == u32_be_bytes(h.crc),
        local_header_bytes(h).subrange(18, 22) == u32_be_bytes(h.compressed_size),
        local_header_bytes(h).subrange(22, 26) == u32_be_bytes(h.un_compressed_size),
        local_header_bytes(h).subrange(26, 28) == u16_be_bytes(h.file_name_length),
        local_header_bytes(h).subrange(28, 30) == u16_be_bytes(h.extra_field_length),
        local_header_bytes(h).subrange(30, local_header_bytes(h).len() as int) == h.file_name,
{
    reveal(local_header_bytes);
    assert(local_header_bytes(h).subrange(0, 4) =~= u32_be_bytes(h.signature));
    assert(local_header_bytes(h).subrange(4, 6) =~= u16_be_bytes(h.version_needed));
    assert(local_header_bytes(h).subrange(6, 8) =~= u16_be_bytes(h.general_flag));
    assert(local_header_bytes(h).subrange(8, 10) =~= u16_be_bytes(h.compression_method));
    assert(local_header_bytes(h).subrange(10, 12) =~= u16_be_bytes(h.last_mod_time));
    assert(local_header_bytes(h).subrange(12, 14) =~= u16_be_bytes(h.last_mod_date));
    assert(local_header_bytes(h).subrange(14, 18) =~= u32_be_bytes(h.crc));
    assert(local_header_bytes(h).subrange(18, 22) =~= u32_be_bytes(h.compressed_size));
    assert(local_header_bytes(h).subrange(22, 26) =~= u32_be_bytes(h.un_compressed_size));
    assert(local_header_bytes(h).subrange(26, 28) =~= u16_be_bytes(h.file_name_length));
    assert(local_header_bytes(h).subrange(28, 30) =~= u16_be_bytes(h.extra_field_length));
    assert(local_header_bytes(h).subrange(30, local_header_bytes(h).len() as int) =~= h.file_name);
}

/// Where each field of a serialized central directory entry stands, in
/// ZIP's order: every numeric field at its fixed offset, written most
/// significant byte first, then the name (extra field and comment are not
/// written).
#[verifier::rlimit(60)]
pub proof fn lemma_central_entry_layout(c: CentralEntryFields)
    ensures
        central_entry_bytes(c).len() == 46 + c.file_name.len(),
        central_entry_bytes(c).subrange(0, 4) == u32_be_bytes(c.signature),
        central_entry_bytes(c).subrange(4, 6) == u16_be_bytes(c.version_made_by),
        central_entry_bytes(c).subrange(6, 8) == u16_be_bytes(c.version_needed),
        central_entry_bytes(c).subrange(8, 10) == u16_be_bytes(c.general_flag),
        central_entry_bytes(c).subrange(10, 12) == u16_be_bytes(c.compression_method),
        central_entry_bytes(c).subrange(12, 14) == u16_be_bytes(c.last_mod_time),
        central_entry_bytes(c).subrange(14, 16) == u16_be_bytes(c.last_mod_date),
        central_entry_bytes(c).subrange(16, 20) == u32_be_bytes(c.crc),
        central_entry_bytes(c).subrange(20, 24) == u32_be_bytes(c.compressed_size),
        central_entry_bytes(c).subrange(24, 28) == u32_be_bytes(c.un_compressed_size),
        central_entry_bytes(c).subrange(28, 30) == u16_be_bytes(c.file_name_length),
        central_entry_bytes(c).subrange(30, 32) == u16_be_bytes(c.extra_field_length),
        central_entry_bytes(c).subrange(32, 34) == u16_be_bytes(c.file_comment_length),
        central_entry_bytes(c).subrange(34, 36) == u16_be_bytes(c.disk_number_start),
        central_entry_bytes(c).subrange(36, 38) == u16_be_bytes(c.internal_file_attributes),
        central_entry_bytes(c).subrange(38, 42) == u32_be_bytes(c.external_file_attributes),
        central_entry_bytes(c).subrange(42, 46) == u32_be_bytes(c.relative_offset_of_local_header),
        central_entry_bytes(c).subrange(46, central_entry_bytes(c).len() as int) == c.file_name,
{
    reveal(central_entry_bytes);
    assert(central_entry_bytes(c).subrange(0, 4) =~= u32_be_bytes(c.signature));
    assert(central_entry_bytes(c).subrange(4, 6) =~= u16_be_bytes(c.version_made_by));
    assert(central_entry_bytes(c).subrange(6, 8) =~= u16_be_bytes(c.version_needed));
    assert(central_entry_bytes(c).subrange(8, 10) =~= u16_be_bytes(c.general_flag));
    assert(central_entry_bytes(c).subrange(10, 12) =~= u16_be_bytes(c.compression_method));
    assert(central_entry_bytes(c).subrange(12, 14) =~= u16_be_bytes(c.last_mod_time));
    assert(central_entry_bytes(c).subrange(14, 16) =~= u16_be_bytes(c.last_mod_date));
    assert(central_entry_bytes(c).subrange(16, 20) =~= u32_be_bytes(c.crc));
    assert(central_entry_bytes(c).subrange(20, 24) =~= u32_be_bytes(c.compressed_size));
    assert(central_entry_bytes(c).subrange(24, 28) =~= u32_be_bytes(c.un_compressed_size));
    assert(central_entry_bytes(c).subrange(28, 30) =~= u16_be_bytes(c.file_name_length));
    assert(central_entry_bytes(c).subrange(30, 32) =~= u16_be_bytes(c.extra_field_length));
    assert(central_entry_bytes(c).subrange(32, 34) =~= u16_be_bytes(c.file_comment_length));
    assert(central_entry_bytes(c).subrange(34, 36) =~= u16_be_bytes(c.disk_number_start));
    assert(central_entry_bytes(c).subrange(36, 38) =~= u16_be_bytes(c.internal_file_attributes));
    assert(central_entry_bytes(c).subrange(38, 42) =~= u32_be_bytes(c.external_file_attributes));
    assert(central_entry_bytes(c).subrange(42, 46) =~= u32_be_bytes(c.relative_offset_of_local_header));
    assert(central_entry_bytes(c).subrange(46, central_entry_bytes(c).len() as int) =~= c.file_name);
}

/// Where each field of a serialized end record stands, in ZIP's order,
/// every one written most significant byte first (the comment is not
/// written).
pub proof fn lemma_end_record_layout(d: EndRecordFields)
    ensures
        end_record_bytes(d).len() == 22,
        end_record_bytes(d).subrange(0, 4) == u32_be_bytes(d.signature),
        end_record_bytes(d).subrange(4, 6) == u16_be_bytes(d.num_of_disk),
        end_record_bytes(d).subrange(6, 8) == u16_be_bytes(d.disk_where_cd_start),
        end_record_bytes(d).subrange(8, 10) == u16_be_bytes(d.num_of_cd_on_disk),
        end_record_bytes(d).subrange(10, 12) == u16_be_bytes(d.num_of_cd),
        end_record_bytes(d).subrange(12, 16) == u32_be_bytes(d.size_of_cd),
        end_record_bytes(d).subrange(16, 20) == u32_be_bytes(d.offset_of_cd),
        end_record_bytes(d).subrange(20, 22) == u16_be_bytes(d.zip_comment_length),
{
    reveal(end_record_bytes);
    assert(end_record_bytes(d).subrange(0, 4) =~= u32_be_bytes(d.signature));
    assert(end_record_bytes(d).subrange(4, 6) =~= u16_be_bytes(d.num_of_disk));
    assert(end_record_bytes(d).subrange(6, 8) =~= u16_be_bytes(d.disk_where_cd_start));
    assert(end_record_bytes(d).subrange(8, 10) =~= u16_be_bytes(d.num_of_cd_on_disk));
    assert(end_record_bytes(d).subrange(10, 12) =~= u16_be_bytes(d.num_of_cd));
    assert(end_record_bytes(d).subrange(12, 16) =~= u32_be_bytes(d.size_of_cd));
    assert(end_record_bytes(d).subrange(16, 20) =~= u32_be_bytes(d.offset_of_cd));
    assert(end_record_bytes(d).subrange(20, 22) =~= u16_be_bytes(d.zip_comment_length));
}

/// The serialized first `i` members are the start of the serialized members.
pub proof fn lemma_entries_bytes_prefix(es: Seq<EntryFields>, i: int)
    requires
        0 <= i <= es.len(),
    ensures
        entries_bytes(es.take(i)).len() <= entries_bytes(es).len(),
        entries_bytes(es).subrange(0, entries_bytes(es.take(i)).len() as int) == entries_bytes(
            es.take(i),
        ),
    decreases es.len() - i,
{
    if i == es.len() {
        assert(es.take(i) =~= es);
        assert(entries_bytes(es).subrange(0, entries_bytes(es).len() as int) =~= entries_bytes(es));
    } else {
        lemma_entries_bytes_prefix(es, i + 1);
        assert(es.take(i + 1).drop_last() =~= es.take(i));
        let a = entries_bytes(es.take(i));
        let b = entries_bytes(es.take(i + 1));
        assert(b == a + entry_bytes(es[i]));
        assert(entries_bytes(es).subrange(0, a.len() as int) =~= b.subrange(0, a.len() as int));
        assert(b.subrange(0, a.len() as int) =~= a);
    }
}

/// The serialized first `i` central entries are the start of the serialized central directory.
pub proof fn lemma_central_entries_bytes_prefix(cs: Seq<CentralEntryFields>, i: int)
    requires
        0 <= i <= cs.len(),
    ensures
        central_entries_bytes(cs.take(i)).len() <= central_entries_bytes(cs).len(),
        central_entries_bytes(cs).subrange(0, central_entries_bytes(cs.take(i)).len() as int) == central_entries_bytes(
            cs.take(i),
        ),
    decreases cs.len() - i,
{
    if i == cs.len() {
        assert(cs.take(i) =~= cs);
        assert(central_entries_bytes(cs).subrange(0, central_entries_bytes(cs).len() as int) =~= central_entries_bytes(cs));
    } else {
        lemma_central_entries_bytes_prefix(cs, i + 1);
        assert(cs.take(i + 1).drop_last() =~= cs.take(i));
        let a = central_entries_bytes(cs.take(i));
        let b = central_entries_bytes(cs.take(i + 1));
        assert(b == a + central_entry_bytes(cs[i]));
        assert(central_entries_bytes(cs).subrange(0, a.len() as int) =~= b.subrange(0, a.len() as int));
        assert(b.subrange(0, a.len() as int) =~= a);
    }
}

/// In a serialized archive, member `j` stands right after the members
/// before it: its bytes are there whole, its header's signature at that
/// position and the CRC-32 it records four bytes on from byte 14, written
/// most significant byte first.
pub proof fn lemma_member_in_archive(a: ArchiveFields, j: int)
    requires
        0 <= j < a.file_entry.len(),
    ensures
        ({
            let p = entries_bytes(a.file_entry.take(j)).len() as int;
            let e = entry_bytes(a.file_entry[j]);
            let bytes = archive_bytes(a);
            &&& p + e.len() <= entries_bytes(a.file_entry).len()
            &&& bytes.subrange(p, p + e.len()) == e
            &&& bytes.subrange(p, p + 4) == u32_be_bytes(a.file_entry[j].local_header.signature)
            &&& bytes.subrange(p + 14, p + 18) == u32_be_bytes(a.file_entry[j].local_header.crc)
            &&& bytes.subrange(p + 18, p + 22) == u32_be_bytes(
                a.file_entry[j].local_header.compressed_size,
            )
        }),
{
    let es = a.file_entry;
    let p = entries_bytes(es.take(j)).len() as int;
    let e = entry_bytes(es[j]);
    let bytes = archive_bytes(a);
    let all = entries_bytes(es);
    lemma_entries_bytes_prefix(es, j + 1);
    assert(es.take(j + 1).drop_last() =~= es.take(j));
    let qb = entries_bytes(es.take(j + 1));
    assert(qb == entries_bytes(es.take(j)) + e);
    assert(all.subrange(0, qb.len() as int) == qb);
    assert(bytes == all + central_entries_bytes(a.central_dir_entry) + end_record_bytes(a.end_of_cd));
    assert(bytes.subrange(p, p + e.len()) =~= qb.subrange(p, p + e.len()));
    assert(qb.subrange(p, p + e.len()) =~= e);
    lemma_local_header_layout(es[j].local_header);
    let h = local_header_bytes(es[j].local_header);
    assert(e == h + es[j].body);
    assert(h.len() >= 30);
    assert(bytes.subrange(p, p + 4) =~= e.subrange(0, 4));
    assert(e.subrange(0, 4) =~= h.subrange(0, 4));
    assert(bytes.subrange(p + 14, p + 18) =~= e.subrange(14, 18));
    assert(e.subrange(14, 18) =~= h.subrange(14, 18));
    assert(bytes.subrange(p + 18, p + 22) =~= e.subrange(18, 22));
    assert(e.subrange(18, 22) =~= h.subrange(18, 22));
}

/// In a serialized archive, central entry `j` stands after all members and
/// the central entries before it: its bytes are there whole, its signature
/// at that position, the CRC-32 it records at byte 16 and the offset of its
/// member at byte 42, each written most significant byte first.
pub proof fn lemma_central_in_archive(a: ArchiveFields, j: int)
    requires
        0 <= j < a.central_dir_entry.len(),
    ensures
        ({
            let q = (entries_bytes(a.file_entry).len() + central_entries_bytes(
                a.central_dir_entry.take(j),
            ).len()) as int;
            let c = central_entry_bytes(a.central_dir_entry[j]);
            let bytes = archive_bytes(a);
            &&& bytes.subrange(q, q + c.len()) == c
            &&& bytes.subrange(q, q + 4) == u32_be_bytes(a.central_dir_entry[j].signature)
            &&& bytes.subrange(q + 16, q + 20) == u32_be_bytes(a.central_dir_entry[j].crc)
            &&& bytes.subrange(q + 20, q + 24) == u32_be_bytes(a.central_dir_entry[j].compressed_size)
            &&& bytes.subrange(q + 42, q + 46) == u32_be_bytes(
                a.central_dir_entry[j].relative_offset_of_local_header,
            )
        }),
{
    let cs = a.central_dir_entry;
    let eb = entries_bytes(a.file_entry);
    let q = (eb.len() + central_entries_bytes(cs.take(j)).len()) as int;
    let c = central_entry_bytes(cs[j]);
    let bytes = archive_bytes(a);
    let all = central_entries_bytes(cs);
    lemma_central_entries_bytes_prefix(cs, j + 1);
    assert(cs.take(j + 1).drop_last() =~= cs.take(j));
    let qb = central_entries_bytes(cs.take(j + 1));
    assert(qb == central_entries_bytes(cs.take(j)) + c);
    assert(all.subrange(0, qb.len() as int) == qb);
    assert(bytes == eb + all + end_record_bytes(a.end_of_cd));
    let r = q - eb.len();
    assert(bytes.subrange(q, q + c.len()) =~= qb.subrange(r, r + c.len()));
    assert(qb.subrange(r, r + c.len()) =~= c);
    lemma_central_entry_layout(cs[j]);
    assert(bytes.subrange(q, q + 4) =~= c.subrange(0, 4));
    assert(bytes.subrange(q + 16, q + 20) =~= c.subrange(16, 20));
    assert(bytes.subrange(q + 20, q + 24) =~= c.subrange(20, 24));
    assert(bytes.subrange(q + 42, q + 46) =~= c.subrange(42, 46));
}

/// Appends the bytes of `bytes`.
pub fn push_bytes(out: &mut Vec<u8>, bytes: &Vec<u8>)
    ensures
        final(out)@ == old(out)@ + bytes@,
{
    let mut i: usize = 0;
    while i < bytes.len()
        invariant
            i <= bytes@.len(),
            out@ == old(out)@ + bytes@.take(i as int),
        decreases bytes@.len() - i,
    {
        out.push(bytes[i]);
        assert(bytes@.take(i + 1) =~= bytes@.take(i as int).push(bytes@[i as int]));
        i += 1;
    }
    assert(bytes@.take(bytes@.len() as int) =~= bytes@);
}

/// Appends a serialized archive member.
pub fn write_entry(zip: &mut Vec<u8>, fe: &FileEntry)
    ensures
        final(zip)@ == old(zip)@ + entry_bytes(fe@),
{
    let lh = &fe.local_header;
    push_u32_be(zip, lh.signature);
    push_u16_be(zip, lh.version_needed);
    push_u16_be(zip, lh.general_flag);
    push_u16_be(zip, lh.compression_method);
    push_u16_be(zip, lh.last_mod_time);
    push_u16_be(zip, lh.last_mod_date);
    push_u32_be(zip, lh.crc);
    push_u32_be(zip, lh.compressed_size);
    push_u32_be(zip, lh.un_compressed_size);
    push_u16_be(zip, lh.file_name_length);
    push_u16_be(zip, lh.extra_field_length);
    push_bytes(zip, &lh.file_name);
    push_bytes(zip, &fe.body);
    reveal(local_header_bytes);
    assert(zip@ =~= old(zip)@ + entry_bytes(fe@));
}

/// Appends a serialized central directory entry.
pub fn write_central_entry(zip: &mut Vec<u8>, cd: &CentralDirectoryEntry)
    ensures
        final(zip)@ == old(zip)@ + central_entry_bytes(cd@),
{
    push_u32_be(zip, cd.signature);
    push_u16_be(zip, cd.version_made_by);
    push_u16_be(zip, cd.version_needed);
    push_u16_be(zip, cd.general_flag);
    push_u16_be(zip, cd.compression_method);
    push_u16_be(zip, cd.last_mod_time);
    push_u16_be(zip, cd.last_mod_date);
    push_u32_be(zip, cd.crc);
    push_u32_be(zip, cd.compressed_size);
    push_u32_be(zip, cd.un_compressed_size);
    push_u16_be(zip, cd.file_name_length);
    push_u16_be(zip, cd.extra_field_length);
    push_u16_be(zip, cd.file_comment_length);
    push_u16_be(zip, cd.disk_number_start);
    push_u16_be(zip, cd.internal_file_attributes);
    push_u32_be(zip, cd.external_file_attributes);
    push_u32_be(zip, cd.relative_offset_of_local_header);
    push_bytes(zip, &cd.file_name);
    reveal(central_entry_bytes);
    assert(zip@ =~= old(zip)@ + central_entry_bytes(cd@));
}

/// Appends a serialized end of central directory record.
pub fn write_end_record(zip: &mut Vec<u8>, eocd: &EndOfCentralDirectory)
    ensures
        final(zip)@ == old(zip)@ + end_record_bytes(eocd@),
{
    push_u32_be(zip, eocd.signature);
    push_u16_be(zip, eocd.num_of_disk);
    push_u16_be(zip, eocd.disk_where_cd_start);
    push_u16_be(zip, eocd.num_of_cd_on_disk);
    push_u16_be(zip, eocd.num_of_cd);
    push_u32_be(zip, eocd.size_of_cd);
    push_u32_be(zip, eocd.offset_of_cd);
    push_u16_be(zip, eocd.zip_comment_length);
    reveal(end_record_bytes);
    assert(zip@ =~= old(zip)@ + end_record_bytes(eocd@));
}

/// Serializes an archive: every member, then every central directory entry,
/// then the end record.
pub fn serialize_archive(archive: &Archive) -> (zip: Vec<u8>)
    ensures
        zip@ == archive_bytes(archive@),
{
    let mut zip: Vec<u8> = vec![];
    let mut i: usize = 0;
    while i < archive.file_entry.len()
        invariant
            i <= archive.file_entry@.len(),
            zip@ == entries_bytes(archive@.file_entry.take(i as int)),
        decreases archive.file_entry@.len() - i,
    {
        write_entry(&mut zip, &archive.file_entry[i]);
        assert(archive@.file_entry.take(i + 1).drop_last() =~= archive@.file_entry.take(i as int));
        i += 1;
    }
    assert(archive@.file_entry.take(i as int) =~= archive@.file_entry);
    let ghost entries = zip@;
    let mut j: usize = 0;
    while j < archive.central_dir_entry.len()
        invariant
            j <= archive.central_dir_entry@.len(),
            zip@ == entries + central_entries_bytes(archive@.central_dir_entry.take(j as int)),
        decreases archive.central_dir_entry@.len() - j,
    {
        write_central_entry(&mut zip, &archive.central_dir_entry[j]);
        assert(archive@.central_dir_entry.take(j + 1).drop_last() =~= archive@.central_dir_entry.take(
            j as int,
        ));
        assert(zip@ =~= entries + central_entries_bytes(archive@.central_dir_entry.take(j + 1)));
        j += 1;
    }
    assert(archive@.central_dir_entry.take(j as int) =~= archive@.central_dir_entry);
    write_end_record(&mut zip, &archive.end_of_cd);
    zip
}

} // verus!
