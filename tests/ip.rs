use talpid_dns::ip::{ip_from_bytes, ip_less, ip_to_bytes, ip_version, is_loopback, sorted_unique, IpAddr};

#[test]
fn bytes_decode_by_length() {
    assert_eq!(ip_from_bytes(&[192, 168, 1, 1]), Some(IpAddr::V4([192, 168, 1, 1])));
    let mut v6 = [0u8; 16];
    v6[0] = 0x20;
    v6[15] = 7;
    assert_eq!(ip_from_bytes(&v6), Some(IpAddr::V6(v6)));
    assert_eq!(ip_from_bytes(&[1, 2, 3, 4, 5]), None);
    assert_eq!(ip_from_bytes(&[]), None);
    assert_eq!(ip_from_bytes(&[0u8; 15]), None);
}

#[test]
fn bytes_encode_octets() {
    assert_eq!(ip_to_bytes(&IpAddr::V4([8, 8, 4, 4])), vec![8, 8, 4, 4]);
    let mut v6 = [0u8; 16];
    v6[1] = 0xab;
    assert_eq!(ip_to_bytes(&IpAddr::V6(v6)), v6.to_vec());
}

#[test]
fn family_numbers() {
    assert_eq!(ip_version(&IpAddr::V4([1, 1, 1, 1])), 2);
    assert_eq!(ip_version(&IpAddr::V6([0; 16])), 10);
}

#[test]
fn loopback_addresses() {
    assert!(is_loopback(&IpAddr::V4([127, 0, 0, 53])));
    assert!(!is_loopback(&IpAddr::V4([8, 8, 8, 8])));
    let mut one = [0u8; 16];
    one[15] = 1;
    assert!(is_loopback(&IpAddr::V6(one)));
    assert!(!is_loopback(&IpAddr::V6([0; 16])));
}

#[test]
fn order_puts_ipv4_first() {
    assert!(ip_less(&IpAddr::V4([255, 255, 255, 255]), &IpAddr::V6([0; 16])));
    assert!(!ip_less(&IpAddr::V6([0; 16]), &IpAddr::V4([0, 0, 0, 0])));
    assert!(ip_less(&IpAddr::V4([1, 2, 3, 4]), &IpAddr::V4([1, 2, 4, 0])));
    assert!(!ip_less(&IpAddr::V4([1, 2, 3, 4]), &IpAddr::V4([1, 2, 3, 4])));
}

#[test]
fn sorting_removes_duplicates() {
    let mut b = [0u8; 16];
    b[0] = 1;
    let servers = vec![
        IpAddr::V6(b),
        IpAddr::V4([9, 9, 9, 9]),
        IpAddr::V6([0; 16]),
        IpAddr::V4([1, 1, 1, 1]),
        IpAddr::V4([9, 9, 9, 9]),
    ];
    assert_eq!(
        sorted_unique(&servers),
        vec![IpAddr::V4([1, 1, 1, 1]), IpAddr::V4([9, 9, 9, 9]), IpAddr::V6([0; 16]), IpAddr::V6(b)]
    );
    assert!(sorted_unique(&[]).is_empty());
}
