use zxzedesk::session::{
    connection_target, generate_local_id, generate_password, host_port, join_host_port,
    local_id_from, password_from,
};

#[test]
fn local_id_from_random_numbers() {
    assert_eq!(local_id_from(0), "100000");
    assert_eq!(local_id_from(899_999), "999999");
    assert_eq!(local_id_from(900_000), "100000");
    assert_eq!(local_id_from(u32::MAX), "267295");
    for r in [1u32, 12345, 777_777_777] {
        assert_eq!(local_id_from(r), format!("{:06}", r % 900_000 + 100_000));
    }
}

#[test]
fn password_from_random_numbers() {
    assert_eq!(password_from(0), "0000");
    assert_eq!(password_from(0xBEEF), "BEEF");
    assert_eq!(password_from(0x00A1), "00A1");
}

#[test]
fn generated_id_is_six_digits_in_range() {
    for _ in 0..50 {
        let id = generate_local_id();
        assert_eq!(id.len(), 6);
        let n: u64 = id.parse().unwrap();
        assert!((100_000..=999_999).contains(&n));
    }
}

#[test]
fn generated_password_is_four_upper_hex_digits() {
    for _ in 0..50 {
        let pw = generate_password();
        assert_eq!(pw.len(), 4);
        assert!(pw.chars().all(|c| c.is_ascii_digit() || ('A'..='F').contains(&c)));
    }
}

#[test]
fn host_port_from_id() {
    assert_eq!(host_port("123456"), 22_386);
    assert_eq!(host_port("100000"), 10_000 + (100_000 % 55_535) as u16);
    assert_eq!(host_port("999999"), 10_000 + (999_999 % 55_535) as u16);
    assert_eq!(host_port("abc"), 10_000);
    assert_eq!(host_port(""), 10_000);
    assert_eq!(host_port("+55535"), 10_000);
}

#[test]
fn host_port_of_local_id_law_on_values() {
    for r in [0u32, 1, 55_534, 899_999, u32::MAX] {
        let id = local_id_from(r);
        let port = host_port(&id);
        assert_eq!(port as u32, 10_000 + (r % 900_000 + 100_000) % 55_535);
        assert!((10_000..=65_534).contains(&port));
    }
}

#[test]
fn six_digit_id_dials_the_relay() {
    let t = connection_target(" 12 34 56 ", 9000);
    assert_eq!(t.address, "bore.pub:9000");
    assert_eq!(t.message, "Connecting to 123456");
}

#[test]
fn local_id_dials_relay_law_on_values() {
    for r in [0u32, 42, u32::MAX] {
        let id = local_id_from(r);
        assert_eq!(connection_target(&id, 7000).address, "bore.pub:7000");
    }
}

#[test]
fn address_with_port_is_used_as_typed() {
    let t = connection_target("example.org:2222", 80);
    assert_eq!(t.address, "example.org:2222");
    assert_eq!(t.message, "Connecting to example.org:2222");
}

#[test]
fn host_name_gets_the_port() {
    assert_eq!(connection_target("1.2.3.4", 80).address, "1.2.3.4:80");
    assert_eq!(connection_target(" my host.lan ", 81).address, "myhost.lan:81");
}

#[test]
fn anything_else_dials_the_local_machine() {
    assert_eq!(connection_target("abc", 80).address, "127.0.0.1:80");
    assert_eq!(connection_target("1234567", 80).address, "127.0.0.1:80");
    assert_eq!(connection_target("", 80).address, "127.0.0.1:80");
}

#[test]
fn id_length_counts_bytes_and_all_white_space_is_stripped() {
    assert_eq!(connection_target("é1234", 5).address, "bore.pub:5");
    assert_eq!(connection_target("\t123456\n", 5).address, "bore.pub:5");
    assert_eq!(connection_target("12\t3456", 5).address, "bore.pub:5");
    let t = connection_target("12\t34 56", 4000);
    assert_eq!(t.address, "bore.pub:4000");
    assert_eq!(t.message, "Connecting to 123456");
    assert_eq!(connection_target("1.2.3.4\u{3000}", 80).address, "1.2.3.4:80");
}

#[test]
fn joining_host_and_port() {
    assert_eq!(join_host_port("bore.pub", 4242), "bore.pub:4242");
    assert_eq!(join_host_port("h", 0), "h:0");
}
