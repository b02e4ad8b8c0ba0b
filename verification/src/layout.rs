use vstd::prelude::*;

use crate::byteorder::{
    lemma_swap16_involution, lemma_swap32_involution, lemma_swap_zero, swap16, swap32,
};
use crate::byteorder::{lemma_swapped_be_is_le32, u32_le_bytes};
use crate::records::{
    archive_bytes, central_dir_size, central_entries_bytes, central_entry_bytes,
    central_entry_model, central_entry_size, end_record_bytes, entries_bytes, entries_span,
    entry_bytes, entry_span, lemma_central_in_archive, lemma_entries_bytes_prefix,
    lemma_member_in_archive, EntryFields, END_RECORD_LEN,
};
use crate::zip::{
    archive_model, central_model, entries_model, file_entry_model, lemma_entries_model_index,
    lemma_entries_model_len, local_header_model, name_bytes, name_len16, File,
};

verus! {

/// Nothing a header records for `fs` is cut short: every stored name is
/// shorter than 64 KiB and every member's bytes shorter than 4 GiB, and the
/// members' and the central directory's total sizes fit 32 bits.
pub open spec fn archive_fits(is_compress: bool, fs: Seq<File>) -> bool {
    &&& forall|j: int|
        0 <= j < fs.len() ==> (#[trigger] name_bytes(fs[j])).len() < 0x10000 && fs[j].encrypt@.len()
            < 0x1_0000_0000
    &&& entries_span(entries_model(false, is_compress, fs)) <= 0xffffffff
    &&& central_dir_size(central_model(false, entries_model(false, is_compress, fs))) <= 0xffffffff
}

/// The bytes a member and its central entry take are the sizes they record.
proof fn lemma_member_lens(is_compress: bool, f: File, off: u32)
    requires
        name_bytes(f).len() < 0x10000,
        f.encrypt@.len() < 0x1_0000_0000,
    ensures
        entry_bytes(file_entry_model(false, is_compress, f, off)).len() == entry_span(
            file_entry_model(false, is_compress, f, off),
        ),
        central_entry_bytes(
            central_entry_model(false, local_header_model(false, is_compress, f), off),
        ).len() == central_entry_size(
            central_entry_model(false, local_header_model(false, is_compress, f), off),
        ),
{
    lemma_swap16_involution(name_len16(f));
    lemma_swap_zero();
    crate::records::lemma_local_header_bytes(local_header_model(false, is_compress, f));
    crate::records::lemma_central_entry_bytes(
        central_entry_model(false, local_header_model(false, is_compress, f), off),
    );
}

/// The serialized members and central directory take the sizes they record.
proof fn lemma_archive_lens(is_compress: bool, fs: Seq<File>)
    requires
        forall|j: int|
            0 <= j < fs.len() ==> (#[trigger] name_bytes(fs[j])).len() < 0x10000 && fs[j].encrypt@.len()
                < 0x1_0000_0000,
    ensures
        entries_bytes(entries_model(false, is_compress, fs)).len() == entries_span(
            entries_model(false, is_compress, fs),
        ),
        central_entries_bytes(central_model(false, entries_model(false, is_compress, fs))).len()
            == central_dir_size(central_model(false, entries_model(false, is_compress, fs))),
    decreases fs.len(),
{
    if fs.len() > 0 {
        let prev = fs.drop_last();
        assert forall|j: int| 0 <= j < prev.len() implies (#[trigger] name_bytes(prev[j])).len()
            < 0x10000 && prev[j].encrypt@.len() < 0x1_0000_0000 by {
            assert(prev[j] == fs[j]);
        }
        lemma_archive_lens(is_compress, prev);
        let es0 = entries_model(false, is_compress, prev);
        let off = entries_span(es0) as u32;
        let e = file_entry_model(false, is_compress, fs.last(), off);
        let es = entries_model(false, is_compress, fs);
        assert(es == es0.push(e));
        assert(es.drop_last() =~= es0);
        assert(name_bytes(fs[fs.len() - 1]).len() < 0x10000);
        lemma_member_lens(is_compress, fs.last(), off);
        assert(central_model(false, es).drop_last() =~= central_model(false, es0));
        assert(central_model(false, es).last() == central_entry_model(
            false,
            local_header_model(false, is_compress, fs.last()),
            off,
        ));
    }
}

/// The layout of an archive that `save` writes (not ZIP64) when nothing is
/// cut short: each central directory entry records the offset of its
/// member, the member's serialized bytes stand at that offset and begin
/// with the local header signature `PK\x03\x04`; the end record counts the
/// members and records the central directory's offset and size, under which
/// the central directory's bytes stand, followed by the end record.
pub proof fn lemma_archive_layout(is_compress: bool, fs: Seq<File>)
    requires
        archive_fits(is_compress, fs),
    ensures
        ({
            let a = archive_model(false, is_compress, fs);
            let bytes = archive_bytes(a);
            let es = a.file_entry;
            let cs = a.central_dir_entry;
            let cd_offset = swap32(a.end_of_cd.offset_of_cd) as int;
            let cd_size = swap32(a.end_of_cd.size_of_cd) as int;
            &&& es.len() == fs.len()
            &&& cs.len() == fs.len()
            &&& swap16(a.end_of_cd.num_of_cd) == fs.len() as u16
            &&& forall|j: int|
                0 <= j < fs.len() ==> swap32((#[trigger] cs[j]).relative_offset_of_local_header)
                    == es[j].offset
            &&& forall|j: int|
                0 <= j < fs.len() ==> (#[trigger] es[j]).offset + entry_bytes(es[j]).len() <= cd_offset
                    && bytes.subrange(
                    es[j].offset as int,
                    es[j].offset + entry_bytes(es[j]).len(),
                ) == entry_bytes(es[j]) && bytes.subrange(es[j].offset as int, es[j].offset + 4)
                    == seq![0x50u8, 0x4bu8, 0x03u8, 0x04u8]
            &&& bytes.len() == cd_offset + cd_size + END_RECORD_LEN
            &&& bytes.subrange(cd_offset, cd_offset + cd_size) == central_entries_bytes(cs)
            &&& bytes.subrange(cd_offset + cd_size, bytes.len() as int) == end_record_bytes(
                a.end_of_cd,
            )
        }),
{
    let a = archive_model(false, is_compress, fs);
    let bytes = archive_bytes(a);
    let es = a.file_entry;
    let cs = a.central_dir_entry;
    lemma_archive_lens(is_compress, fs);
    lemma_entries_model_len(false, is_compress, fs);
    lemma_swap32_involution(entries_span(es) as u32);
    lemma_swap32_involution(central_dir_size(cs) as u32);
    lemma_swap16_involution(cs.len() as u16);
    crate::records::lemma_entries_span_nonneg(es);
    crate::records::lemma_central_dir_size_nonneg(cs);
    let eb = entries_bytes(es);
    let cb = central_entries_bytes(cs);
    let db = end_record_bytes(a.end_of_cd);
    crate::records::lemma_end_record_bytes(a.end_of_cd);
    assert(bytes == eb + cb + db);
    assert(bytes.subrange(eb.len() as int, (eb.len() + cb.len()) as int) =~= cb);
    assert(bytes.subrange((eb.len() + cb.len()) as int, bytes.len() as int) =~= db);
    assert forall|j: int| 0 <= j < fs.len() implies swap32(
        (#[trigger] cs[j]).relative_offset_of_local_header,
    ) == es[j].offset by {
        lemma_swap32_involution(es[j].offset);
    }
    assert forall|j: int| 0 <= j < fs.len() implies (#[trigger] es[j]).offset + entry_bytes(es[j]).len()
        <= swap32(a.end_of_cd.offset_of_cd) && bytes.subrange(
        es[j].offset as int,
        es[j].offset + entry_bytes(es[j]).len(),
    ) == entry_bytes(es[j]) && bytes.subrange(es[j].offset as int, es[j].offset + 4) == seq![
        0x50u8,
        0x4bu8,
        0x03u8,
        0x04u8,
    ] by {
        lemma_member_at(is_compress, fs, j);
        let off = es[j].offset as int;
        let len = entry_bytes(es[j]).len() as int;
        assert(bytes.subrange(off, off + len) =~= eb.subrange(off, off + len));
        assert(bytes.subrange(off, off + 4) =~= entry_bytes(es[j]).subrange(0, 4));
    }
}

/// In an archive that `save` writes (not ZIP64, nothing cut short), the
/// CRC-32 each file carries is what both of its records hold on disk,
/// little-endian: at byte 14 of its local header, which starts at the
/// member's offset, and at byte 16 of its central entry, which starts at
/// the central directory's offset plus the sizes of the entries before it;
/// that entry also holds the member's offset, little-endian, at byte 42.
pub proof fn lemma_saved_crc_fields(is_compress: bool, fs: Seq<File>, j: int)
    requires
        archive_fits(is_compress, fs),
        0 <= j < fs.len(),
    ensures
        ({
            let a = archive_model(false, is_compress, fs);
            let bytes = archive_bytes(a);
            let off = a.file_entry[j].offset as int;
            let p = swap32(a.end_of_cd.offset_of_cd) + central_dir_size(a.central_dir_entry.take(j));
            &&& bytes.subrange(off + 14, off + 18) == u32_le_bytes(fs[j].crc)
            &&& bytes.subrange(p + 16, p + 20) == u32_le_bytes(fs[j].crc)
            &&& bytes.subrange(p + 42, p + 46) == u32_le_bytes(a.file_entry[j].offset)
        }),
{
    let a = archive_model(false, is_compress, fs);
    let es = a.file_entry;
    let cs = a.central_dir_entry;
    lemma_entries_model_len(false, is_compress, fs);
    lemma_archive_lens(is_compress, fs);
    lemma_entries_model_index(false, is_compress, fs, j);
    lemma_member_at(is_compress, fs, j);
    lemma_member_in_archive(a, j);
    lemma_swapped_be_is_le32(fs[j].crc);
    lemma_central_in_archive(a, j);
    lemma_swapped_be_is_le32(es[j].offset);
    lemma_swap32_involution(entries_span(es) as u32);
    crate::records::lemma_entries_span_nonneg(es);
    assert(cs[j] == central_entry_model(false, es[j].local_header, es[j].offset));
    assert(cs.take(j) =~= crate::zip::central_model(false, entries_model(false, is_compress, fs.take(j))));
    assert forall|i: int| 0 <= i < j implies (#[trigger] name_bytes(fs.take(j)[i])).len() < 0x10000
        && fs.take(j)[i].encrypt@.len() < 0x1_0000_0000 by {
        assert(fs.take(j)[i] == fs[i]);
    }
    lemma_archive_lens(is_compress, fs.take(j));
}

/// The `j`-th member's serialized bytes stand at its offset among the
/// serialized members, and begin with the local header signature.
proof fn lemma_member_at(is_compress: bool, fs: Seq<File>, j: int)
    requires
        archive_fits(is_compress, fs),
        0 <= j < fs.len(),
    ensures
        ({
            let es = entries_model(false, is_compress, fs);
            &&& es[j].offset == entries_bytes(es.take(j)).len()
            &&& es[j].offset + entry_bytes(es[j]).len() <= entries_span(es)
            &&& entries_bytes(es).subrange(es[j].offset as int, es[j].offset + entry_bytes(es[j]).len())
                == entry_bytes(es[j])
            &&& entry_bytes(es[j]).len() >= 4
            &&& entry_bytes(es[j]).subrange(0, 4) == seq![0x50u8, 0x4bu8, 0x03u8, 0x04u8]
        }),
{
    let es = entries_model(false, is_compress, fs);
    lemma_entries_model_len(false, is_compress, fs);
    lemma_archive_lens(is_compress, fs);
    lemma_entries_model_index(false, is_compress, fs, j);
    let pre = es.take(j);
    assert(fs.take(j).len() == j);
    assert forall|i: int| 0 <= i < j implies (#[trigger] name_bytes(fs.take(j)[i])).len() < 0x10000
        && fs.take(j)[i].encrypt@.len() < 0x1_0000_0000 by {
        assert(fs.take(j)[i] == fs[i]);
    }
    lemma_archive_lens(is_compress, fs.take(j));
    crate::records::lemma_entries_span_prefix(es, j + 1);
    assert(es.take(j + 1).drop_last() =~= pre);
    assert(name_bytes(fs[j]).len() < 0x10000);
    lemma_member_lens(is_compress, fs[j], es[j].offset);
    lemma_entries_bytes_prefix(es, j + 1);
    let pb = entries_bytes(pre);
    let qb = entries_bytes(es.take(j + 1));
    assert(qb == pb + entry_bytes(es[j]));
    assert(es[j].offset == pb.len());
    let all = entries_bytes(es);
    let off = es[j].offset as int;
    let len = entry_bytes(es[j]).len() as int;
    assert(all.subrange(0, qb.len() as int) == qb);
    assert(qb.len() == off + len);
    assert(all.subrange(off, off + len) =~= qb.subrange(off, off + len));
    assert(qb.subrange(off, off + len) =~= entry_bytes(es[j]));
    lemma_swapped_signature();
    crate::records::lemma_local_header_bytes(es[j].local_header);
    assert(entry_bytes(es[j]).subrange(0, 4) =~= seq![0x50u8, 0x4bu8, 0x03u8, 0x04u8]);
}

/// The local header signature, byte-swapped and written most significant
/// byte first, is `PK\x03\x04`.
proof fn lemma_swapped_signature()
    ensures
        crate::byteorder::u32_be_bytes(swap32(crate::records::LOCAL_HEADER_SIGNATURE)) == seq![
            0x50u8,
            0x4bu8,
            0x03u8,
            0x04u8,
        ],
{
    crate::byteorder::lemma_swapped_be_is_le32(crate::records::LOCAL_HEADER_SIGNATURE);
    let x: u32 = crate::records::LOCAL_HEADER_SIGNATURE;
    assert((x & 0xff) as u8 == 0x50u8 && ((x >> 8) & 0xff) as u8 == 0x4bu8 && ((x >> 16) & 0xff) as u8
        == 0x03u8 && (x >> 24) as u8 == 0x04u8) by (bit_vector)
        requires
            x == 0x04034b50u32,
    ;
    assert(crate::byteorder::u32_le_bytes(x) =~= seq![0x50u8, 0x4bu8, 0x03u8, 0x04u8]);
}

} // verus!
