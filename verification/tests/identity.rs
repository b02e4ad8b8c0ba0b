use encrypted_zip::passwd;
use encrypted_zip::uuid;

#[test]
fn uuid_values_for_seed() {
    let v = uuid::generate(42);
    assert_eq!(
        v,
        vec![132, 167, 181, 199, 126, 125, 70, 164, 149, 38, 43, 124, 200, 39, 171, 37]
    );
    assert_eq!(v[6] >> 4, 4);
    assert_eq!(v[8] >> 6, 2);
}

#[test]
fn uuid_text_for_seed() {
    assert_eq!(uuid::parse(uuid::generate(42)), "84a7b5c7-7e7d-46a4-9526-2b7cc827ab25");
    assert_eq!(uuid::parse(uuid::generate(0)), "c236e987-dfcc-43a3-8ef3-6592519b229");
    assert_eq!(uuid::parse(uuid::generate(0xffffffff)), "24127490-b482-4d9-a77f-348ebb6287ad");
}

#[test]
fn uuid_parse_prints_hex_without_padding() {
    let u = vec![0x12, 0, 0xff, 0x1234, 0xabcd, 1, 0x4f, 0x10, 0x80, 0xbf, 0, 0, 0, 0, 0, 0xffff];
    assert_eq!(uuid::parse(u), "120ff1234-abcd1-4f10-80bf-00000ffff");
}

#[test]
fn uuid_parse_uses_first_sixteen_values() {
    let mut u = vec![1u16; 16];
    u.push(0xdead);
    assert_eq!(uuid::parse(u), "1111-11-11-11-111111");
}

#[test]
fn password_for_seed() {
    assert_eq!(passwd::generate(16, 42), "p2h8Us4chvnkyQpR");
    assert_eq!(passwd::generate(16, 0), "EzFa5DeQOuD8hqU4");
    assert_eq!(passwd::generate(16, 0xffffffff), "XltHrUpEjJn4bCDy");
    assert_eq!(passwd::generate(0, 42), "");
}

#[test]
fn password_longest() {
    let p = passwd::generate(226, 5);
    assert_eq!(p.len(), 226);
    assert!(p.ends_with("f1gI6"));
    assert!(p.chars().all(|c| c.is_ascii_alphanumeric() && c != '9'));
}
