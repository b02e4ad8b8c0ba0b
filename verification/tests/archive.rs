use encrypted_zip::records::{CentralDirectoryEntry, EndOfCentralDirectory};
use encrypted_zip::zip::valid_timestamp;
use encrypted_zip::{Archive, File, FileEntry, LocalHeader, Zip, ZipCrypto};
use flate2::read::DeflateDecoder;
use std::io::Read;

fn hex(s: &str) -> Vec<u8> {
    (0..s.len()).step_by(2).map(|i| u8::from_str_radix(&s[i..i + 2], 16).unwrap()).collect()
}

fn u16_at(b: &[u8], i: usize) -> u16 {
    u16::from_le_bytes([b[i], b[i + 1]])
}

fn u32_at(b: &[u8], i: usize) -> u32 {
    u32::from_le_bytes([b[i], b[i + 1], b[i + 2], b[i + 3]])
}

const STAMP: [u16; 6] = [2024, 5, 17, 13, 45, 30];

#[test]
fn new_archive_identity() {
    let mut z = Zip::new(42);
    assert_eq!(z.get_uuid(), "84a7b5c7-7e7d-46a4-9526-2b7cc827ab25");
    assert_eq!(z.get_passwd(), "p2h8Us4chvnkyQpR");
    assert_eq!(z.get_compress_level(), 6);
    assert!(z.is_compress);
    assert!(!z.is_zip64);
    assert!(z.files.is_empty());
    assert!(z.file_stream.is_empty());
}

#[test]
fn set_passwd_replaces_password() {
    let mut z = Zip::new(1);
    z.set_passwd("open sesame");
    assert_eq!(z.get_passwd(), "open sesame");
}

#[test]
fn compress_level_is_clamped() {
    let mut z = Zip::new(1);
    z.set_compress_level(-3);
    assert_eq!(z.get_compress_level(), 0);
    assert!(!z.is_compress);
    z.set_compress_level(12);
    assert_eq!(z.get_compress_level(), 9);
    assert!(z.is_compress);
    z.set_compress_level(4);
    assert_eq!(z.get_compress_level(), 4);
}

#[test]
fn create_file_sets_metadata() {
    let mut z = Zip::new(42);
    z.create_file("a.txt", 5, &STAMP);
    let f = &z.files[0];
    assert_eq!(f.file_name_raw, "a.txt");
    assert_eq!(f.file_name, "84a7b5c7-7e7d-46a4-9526-2b7cc827ab25a.txt");
    assert_eq!(f.file_size, 5);
    assert_eq!(f.last_mod_date, 22705);
    assert_eq!(f.last_mod_time, 28079);
    assert_eq!(f.crc, 0);
    assert_eq!(z.file_stream.len(), 1);
    assert_eq!(z.file_stream[0].file_name, "a.txt");
    z.create_file("big", 0x1_0000_0000, &[1980, 1, 1, 0, 0, 0]);
    assert_eq!(z.files[1].file_size, 0xffffffff);
    assert_eq!(z.files[1].last_mod_date, 33);
    assert_eq!(z.files[1].last_mod_time, 0);
}

#[test]
fn timestamps_that_fit() {
    assert!(valid_timestamp(&STAMP));
    assert!(!valid_timestamp(&[2024, 5, 17, 13, 45]));
    assert!(!valid_timestamp(&[1979, 5, 17, 13, 45, 30]));
    assert!(!valid_timestamp(&[2024, 5, 65535, 13, 45, 30]));
}

#[test]
fn streams_collect_chunks() {
    let mut z = Zip::new(3);
    z.create_file("x", 1, &STAMP);
    z.create_file("y", 1, &STAMP);
    z.add_file_raw_from_stream("y", b"abc");
    z.add_file_raw_from_stream("y", b"de");
    z.add_file_raw_from_stream("nope", b"zzz");
    assert_eq!(z.file_stream[0].stream.len(), 0);
    assert_eq!(z.file_stream[1].stream.len(), 2);
    assert_eq!(z.file_stream[1].stream[1].slice, b"de".to_vec());
    assert_eq!(z.done_of_file_stream("y"), Some(vec![3, 2]));
    assert_eq!(z.done_of_file_stream("x"), Some(vec![]));
    assert_eq!(z.done_of_file_stream("nope"), None);
}

#[test]
fn streams_go_to_first_match() {
    let mut z = Zip::new(3);
    z.create_file("d", 1, &STAMP);
    z.create_file("d", 1, &STAMP);
    z.add_file_raw_from_stream("d", b"q");
    assert_eq!(z.file_stream[0].stream.len(), 1);
    assert_eq!(z.file_stream[1].stream.len(), 0);
}

#[test]
fn file_content_is_compressed_and_checksummed() {
    let mut f = File::new();
    f.set_file_raw(b"hello world".to_vec(), 6);
    assert_eq!(f.file_raw, b"hello world".to_vec());
    assert_eq!(f.crc, 0x0d4a1185);
    let mut out = Vec::new();
    DeflateDecoder::new(&f.deflate[..]).read_to_end(&mut out).unwrap();
    assert_eq!(out, b"hello world".to_vec());
    let mut g = File::new();
    g.file_raw = b"123456789".to_vec();
    g.calc_file_raw(1);
    assert_eq!(g.crc, 0xCBF43926);
}

#[test]
fn save_single_file_exact_bytes() {
    let mut z = Zip::new(42);
    z.create_file("a.txt", 5, &STAMP);
    assert!(z.can_save());
    let bytes = z.save();
    let expected = hex("504b0304140001000800af6db158000000000c000000050000002900000038346137623563372d376537642d343661342d393532362d326237636338323761623235612e747874f09c62a70d36225af1f80221504b01023f00140001000800af6db158000000000c0000000500000029000000000000000000000000000000000038346137623563372d376537642d343661342d393532362d326237636338323761623235612e747874504b0506000000000100010057000000530000000000");
    assert_eq!(bytes, expected);
    assert_eq!(z.files[0].encrypt.len(), 12);
}

#[test]
fn save_two_files_exact_bytes() {
    let mut z = Zip::new(42);
    z.create_file("a.txt", 5, &STAMP);
    z.create_file("b.bin", 70000, &[1999, 12, 31, 23, 59, 58]);
    let bytes = z.save();
    let expected = hex("504b0304140001000800af6db158000000000c000000050000002900000038346137623563372d376537642d343661342d393532362d326237636338323761623235612e747874f09c62a70d36225af1f80221504b03041400010008007dbf9f27000000000c000000701101002900000038346137623563372d376537642d343661342d393532362d326237636338323761623235622e62696e33d884c772f06c48c5ae88d3504b01023f00140001000800af6db158000000000c0000000500000029000000000000000000000000000000000038346137623563372d376537642d343661342d393532362d326237636338323761623235612e747874504b01023f001400010008007dbf9f27000000000c0000007011010029000000000000000000000000005300000038346137623563372d376537642d343661342d393532362d326237636338323761623235622e62696e504b05060000000002000200ae000000a60000000000");
    assert_eq!(bytes, expected);
}

#[test]
fn save_empty_archive() {
    let mut z = Zip::new(42);
    let bytes = z.save();
    assert_eq!(bytes, hex("504b0506000000000000000000000000000000000000"));
}

#[test]
fn saved_archive_is_self_consistent_and_decrypts() {
    let mut z = Zip::new(77);
    z.create_file("one.txt", 12, &STAMP);
    z.create_file("two.txt", 9, &STAMP);
    z.files[0].set_file_raw(b"first file!!".to_vec(), 6);
    z.files[1].set_file_raw(b"123456789".to_vec(), 6);
    let bytes = z.save();
    let n = bytes.len();
    assert_eq!(u32_at(&bytes, n - 22), 0x06054b50);
    assert_eq!(u16_at(&bytes, n - 22 + 10), 2);
    let cd_size = u32_at(&bytes, n - 22 + 12) as usize;
    let cd_offset = u32_at(&bytes, n - 22 + 16) as usize;
    assert_eq!(cd_offset + cd_size + 22, n);
    let mut p = cd_offset;
    let mut mt = encrypted_zip::mt::MersenneTwister::new(77);
    for k in 0..2 {
        assert_eq!(u32_at(&bytes, p), 0x02014b50);
        let name_len = u16_at(&bytes, p + 28) as usize;
        let comp = u32_at(&bytes, p + 20) as usize;
        let off = u32_at(&bytes, p + 42) as usize;
        assert_eq!(u32_at(&bytes, off), 0x04034b50);
        let body = bytes[off + 30 + name_len..off + 30 + name_len + comp].to_vec();
        let mut dec = ZipCrypto::new(mt.next());
        for b in z.get_passwd().bytes() {
            dec.update(b);
        }
        let plain = dec.upd(body, false);
        assert_eq!(plain[11] as u32, z.files[k].crc >> 24);
        let mut out = Vec::new();
        DeflateDecoder::new(&plain[12..]).read_to_end(&mut out).unwrap();
        assert_eq!(out, z.files[k].file_raw);
        p += 46 + name_len;
    }
    assert_eq!(p, cd_offset + cd_size);
}

#[test]
fn can_save_limits_file_count() {
    let mut z = Zip::new(1);
    for _ in 0..226 {
        z.create_file("f", 1, &STAMP);
    }
    assert!(z.can_save());
    z.create_file("f", 1, &STAMP);
    assert!(!z.can_save());
}

#[test]
fn check_archive_serializes_records() {
    let mut z = Zip::new(1);
    let lh = LocalHeader {
        signature: 0x504b0304,
        version_needed: 0x1400,
        general_flag: 0x0100,
        compression_method: 0,
        last_mod_time: 0,
        last_mod_date: 0,
        crc: 0,
        compressed_size: 0x01000000,
        un_compressed_size: 0x01000000,
        file_name_length: 0x0100,
        extra_field_length: 0,
        file_name: b"n".to_vec(),
        extra_field: vec![],
    };
    let entry = FileEntry { local_header: lh, body: vec![0xaa], offset: 0 };
    let cd = CentralDirectoryEntry {
        signature: 0x504b0102,
        version_made_by: 0x3f00,
        version_needed: 0x1400,
        general_flag: 0x0100,
        compression_method: 0,
        last_mod_time: 0,
        last_mod_date: 0,
        crc: 0,
        compressed_size: 0x01000000,
        un_compressed_size: 0x01000000,
        file_name_length: 0x0100,
        extra_field_length: 0,
        file_comment_length: 0,
        disk_number_start: 0,
        internal_file_attributes: 0,
        external_file_attributes: 0,
        relative_offset_of_local_header: 0,
        file_name: b"n".to_vec(),
        extra_field: vec![],
        file_comment: vec![],
    };
    let eocd = EndOfCentralDirectory {
        signature: 0x504b0506,
        num_of_disk: 0,
        disk_where_cd_start: 0,
        num_of_cd_on_disk: 0x0100,
        num_of_cd: 0x0100,
        size_of_cd: 0x2f000000,
        offset_of_cd: 0x20000000,
        zip_comment_length: 0,
        zip_comment: vec![],
    };
    let archive = Archive { file_entry: vec![entry], central_dir_entry: vec![cd], end_of_cd: eocd };
    let bytes = z.check_archive(archive);
    assert_eq!(bytes.len(), 32 + 47 + 22);
    assert_eq!(&bytes[0..4], b"PK\x03\x04");
    assert_eq!(bytes[30], b'n');
    assert_eq!(bytes[31], 0xaa);
    assert_eq!(&bytes[32..36], b"PK\x01\x02");
    assert_eq!(&bytes[79..83], b"PK\x05\x06");
    assert_eq!(u32_at(&bytes, 79 + 16), 32);
}
