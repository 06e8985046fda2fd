//! Tests of the wire-level codec and of device discovery.

use krakenusb::kraken3::{
    create_fixed_speed_table, encode_fixed_speed_command, init_handshake_messages,
    kraken3_channel, kraken3_filters, clamp_to_channel,
};
use krakenusb::registry::{find_device, DeviceDescriptor, DeviceFilter};

#[test]
fn codec_clamps_low_duty_to_channel_minimum() {
    let channel = kraken3_channel();
    let msg = encode_fixed_speed_command(10, &channel);
    assert_eq!(msg.len(), 44);
    for i in 4..43 {
        assert_eq!(msg[i], 20);
    }
}

#[test]
fn codec_clamps_high_duty_to_channel_maximum() {
    let channel = kraken3_channel();
    let msg = encode_fixed_speed_command(150, &channel);
    for i in 4..43 {
        assert_eq!(msg[i], 100);
    }
}

#[test]
fn codec_header_names_the_channel() {
    let channel = kraken3_channel();
    let msg = encode_fixed_speed_command(60, &channel);
    assert_eq!(msg[0], 0x72);
    assert_eq!(msg[1], 0x1);
    assert_eq!(msg[2], 0x00);
    assert_eq!(msg[3], 0x00);
}

#[test]
fn codec_terminator_is_always_100() {
    let channel = kraken3_channel();
    for duty in [0u8, 10, 20, 55, 99, 100, 150, 255] {
        let msg = encode_fixed_speed_command(duty, &channel);
        assert_eq!(msg[43], 100);
    }
}

#[test]
fn codec_in_range_duty_fills_the_table_unchanged() {
    let channel = kraken3_channel();
    let msg = encode_fixed_speed_command(60, &channel);
    for i in 4..43 {
        assert_eq!(msg[i], 0x3C);
    }
    assert_eq!(msg[43], 0x64);
}

#[test]
fn table_carries_duty_with_terminator() {
    let table = create_fixed_speed_table(42);
    assert_eq!(table.len(), 40);
    for i in 0..39 {
        assert_eq!(table[i], 42);
    }
    assert_eq!(table[39], 100);
}

#[test]
fn channel_clamp_passes_values_inside_bounds() {
    let channel = kraken3_channel();
    assert_eq!(clamp_to_channel(20, &channel), 20);
    assert_eq!(clamp_to_channel(64, &channel), 64);
    assert_eq!(clamp_to_channel(100, &channel), 100);
}

#[test]
fn handshake_messages_are_fixed() {
    let msgs = init_handshake_messages();
    assert_eq!(msgs.len(), 2);
    assert_eq!(msgs[0], vec![0x10u8, 0x01]);
    assert_eq!(msgs[1], vec![0x20u8, 0x03]);
}

#[test]
fn kraken3_filter_identifies_the_model() {
    let filters = kraken3_filters();
    assert_eq!(filters.len(), 1);
    assert_eq!(filters[0].vendor, 0x1e71);
    assert_eq!(filters[0].product, 0x2007);
}

#[test]
fn filter_matches_on_both_ids_only() {
    let f = DeviceFilter { vendor: 0x1e71, product: 0x2007 };
    assert!(f.matches(&DeviceDescriptor { vendor: 0x1e71, product: 0x2007 }));
    assert!(!f.matches(&DeviceDescriptor { vendor: 0x1e71, product: 0x2008 }));
    assert!(!f.matches(&DeviceDescriptor { vendor: 0x1e72, product: 0x2007 }));
}

#[test]
fn discovery_returns_none_without_a_match() {
    let devices = vec![
        DeviceDescriptor { vendor: 0x046d, product: 0xc52b },
        DeviceDescriptor { vendor: 0x1e71, product: 0x1711 },
    ];
    assert_eq!(find_device(&devices, &kraken3_filters()), None);
}

#[test]
fn discovery_returns_first_matching_device() {
    let devices = vec![
        DeviceDescriptor { vendor: 0x046d, product: 0xc52b },
        DeviceDescriptor { vendor: 0x1e71, product: 0x2007 },
        DeviceDescriptor { vendor: 0x1e71, product: 0x2007 },
    ];
    assert_eq!(find_device(&devices, &kraken3_filters()), Some(1));
}

#[test]
fn discovery_on_empty_list_is_none() {
    let devices: Vec<DeviceDescriptor> = Vec::new();
    assert_eq!(find_device(&devices, &kraken3_filters()), None);
}
