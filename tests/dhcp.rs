use key_enroller::dhcp::{
    dotted_quad, request_dhcp_info, select_boot_server, server_name_option, DhcpDiscovery,
    DhcpPacket,
};

fn packet(server: [u8; 4], options: Vec<u8>) -> DhcpPacket {
    DhcpPacket { your_address: [10, 0, 0, 50], server_address: server, options }
}

fn option66(name: &str) -> Vec<u8> {
    let mut o = vec![53, 1, 5, 66, name.len() as u8];
    o.extend_from_slice(name.as_bytes());
    o.push(255);
    o
}

#[test]
fn option_66_takes_precedence() {
    let d = DhcpDiscovery {
        ack: Some(packet([10, 0, 0, 1], option66("srv.example"))),
        proxy_offer: None,
        pxe_reply: None,
    };
    assert_eq!(request_dhcp_info(&d), Some("srv.example".to_string()));
}

#[test]
fn siaddr_used_without_option_66() {
    let d = DhcpDiscovery {
        ack: Some(packet([10, 0, 0, 1], vec![53, 1, 5, 255])),
        proxy_offer: None,
        pxe_reply: None,
    };
    assert_eq!(request_dhcp_info(&d), Some("10.0.0.1".to_string()));
}

#[test]
fn proxy_offer_used_when_siaddr_zero() {
    let d = DhcpDiscovery {
        ack: Some(packet([0, 0, 0, 0], vec![53, 1, 5, 255])),
        proxy_offer: Some(packet([10, 0, 0, 2], vec![255])),
        pxe_reply: Some(packet([10, 0, 0, 3], vec![255])),
    };
    assert_eq!(request_dhcp_info(&d), Some("10.0.0.2".to_string()));
}

#[test]
fn pxe_reply_used_last() {
    let d = DhcpDiscovery {
        ack: Some(packet([0, 0, 0, 0], vec![255])),
        proxy_offer: Some(packet([0, 0, 0, 0], vec![255])),
        pxe_reply: Some(packet([192, 168, 1, 254], vec![255])),
    };
    assert_eq!(request_dhcp_info(&d), Some("192.168.1.254".to_string()));
}

#[test]
fn no_ack_gives_none() {
    let d = DhcpDiscovery {
        ack: None,
        proxy_offer: Some(packet([10, 0, 0, 2], vec![255])),
        pxe_reply: None,
    };
    assert_eq!(request_dhcp_info(&d), None);
}

#[test]
fn nothing_usable_gives_none() {
    let d = DhcpDiscovery { ack: Some(packet([0, 0, 0, 0], vec![255])), proxy_offer: None, pxe_reply: None };
    assert_eq!(request_dhcp_info(&d), None);
}

#[test]
fn option_scan_stops_at_end_tag() {
    assert_eq!(server_name_option(&[255, 66, 1, b'a']), None);
}

#[test]
fn option_scan_stops_at_overrun() {
    assert_eq!(server_name_option(&[66, 9, b'a', b'b']), None);
    assert_eq!(server_name_option(&[1, 200, 0, 66, 1, b'a']), None);
}

#[test]
fn option_scan_skips_invalid_utf8_and_empty_values() {
    let o = [66, 2, 0xc3, 0x28, 66, 0, 66, 1, b'z', 255];
    assert_eq!(server_name_option(&o), Some("z".to_string()));
}

#[test]
fn option_scan_reads_utf8_name() {
    let o = [12, 1, b'h', 66, 3, b'x', 0xc3, 0xa9, 255];
    assert_eq!(server_name_option(&o), Some("x\u{e9}".to_string()));
}

#[test]
fn option_scan_needs_three_bytes() {
    assert_eq!(server_name_option(&[66, 0]), None);
    assert_eq!(server_name_option(&[]), None);
}

#[test]
fn select_prefers_given_name() {
    assert_eq!(
        select_boot_server(Some("boot.lan".to_string()), [10, 0, 0, 1], None, None),
        Some("boot.lan".to_string())
    );
    assert_eq!(select_boot_server(None, [0, 0, 0, 0], Some([0, 0, 0, 0]), None), None);
}

#[test]
fn dotted_quad_text() {
    assert_eq!(dotted_quad([255, 0, 10, 1]), "255.0.10.1");
    assert_eq!(dotted_quad([0, 99, 100, 9]), "0.99.100.9");
}
