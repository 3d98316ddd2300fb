use vastrum_node::crypto::Sha256Digest;
use vastrum_node::storage::{
    BlockchainDatabase, ComponentDatabase, DomainDatabase, PageDatabase, SiteDatabase,
};
use vastrum_node::text::decimal_string;

#[test]
fn store_paths_carry_the_node_id() {
    assert_eq!(BlockchainDatabase::db_path(3), "database/blockchaindb3");
    assert_eq!(ComponentDatabase::db_path(65535), "database/componentdb65535");
    assert_eq!(DomainDatabase::db_path(0), "database/domaindb0");
    assert_eq!(PageDatabase::db_path(12), "database/pagedb12");
    assert_eq!(SiteDatabase::db_path(9999), "database/sitedb9999");
}

#[test]
fn page_key_is_hex_site_id_bar_path() {
    let key = PageDatabase::get_page_key(Sha256Digest::from_u64(0xabcd), "index.html");
    assert_eq!(key, format!("{}abcd|index.html", "0".repeat(60)));
}

#[test]
fn digest_hex_is_lowercase() {
    let mut data = [0u8; 32];
    data[0] = 0xAB;
    data[31] = 0x0f;
    let s = Sha256Digest::from(data).to_string();
    assert_eq!(s.len(), 64);
    assert!(s.starts_with("ab00"));
    assert!(s.ends_with("0f"));
}

#[test]
fn slot_key_is_big_endian_height() {
    assert_eq!(BlockchainDatabase::slot_key(0x0102030405060708), [1, 2, 3, 4, 5, 6, 7, 8]);
}

#[test]
fn decimal_strings() {
    assert_eq!(decimal_string(0), "0");
    assert_eq!(decimal_string(1_000_007), "1000007");
    assert_eq!(decimal_string(u64::MAX), u64::MAX.to_string());
}

#[test]
fn rpc_endpoints() {
    assert_eq!(vastrum_node::rpc::get_rpc_endpoint("submit"), "http://127.0.0.1:3000/submit/");
    assert_eq!(vastrum_node::rpc::rpc_endpoint_at("http://h:1/", "page"), "http://h:1/page/");
}
