//! Wire-level protocol codec for the implemented cooler model.
//!
//! The firmware takes a fixed 44-byte duty command: a 4-byte header naming
//! the channel, then a 40-byte table filled with the clamped duty value whose
//! last byte is the firmware-required terminator `100`. Before any command,
//! a one-time two-message handshake must be written.

use vstd::prelude::*;

use crate::registry::DeviceFilter;

verus! {

/// Bytes in a duty command's header.
pub const HEADER_SIZE: usize = 4;

/// Bytes in a duty command's table.
pub const TABLE_SIZE: usize = 40;

/// USB vendor id of the implemented cooler model.
pub const KRAKEN3_VENDOR_ID: u16 = 0x1e71;

/// USB product id of the implemented cooler model.
pub const KRAKEN3_PRODUCT_ID: u16 = 0x2007;

/// A controllable output channel: its wire id and the duty bounds the
/// firmware accepts, to which every requested duty is clamped.
pub struct Channel {
    pub id: u8,
    pub min_duty: u8,
    pub max_duty: u8,
}

/// The single pump channel of the implemented model: id 1, duty clamped to
/// the range 20 through 100.
pub fn kraken3_channel() -> (c: Channel)
    ensures
        c.id == 1u8,
        c.min_duty == 20u8,
        c.max_duty == 100u8,
{
    Channel { id: 0x1, min_duty: 20, max_duty: 100 }
}

/// A duty forced into a channel's accepted bounds.
pub open spec fn clamp_duty(duty: u8, min_duty: u8, max_duty: u8) -> u8 {
    if duty < min_duty {
        min_duty
    } else if duty > max_duty {
        max_duty
    } else {
        duty
    }
}

/// Force a requested duty into the channel's bounds: anything below the
/// minimum is raised to it, anything above the maximum lowered to it.
pub fn clamp_to_channel(duty: u8, channel: &Channel) -> (r: u8)
    requires
        channel.min_duty <= channel.max_duty,
    ensures
        r == clamp_duty(duty, channel.min_duty, channel.max_duty),
        channel.min_duty <= r <= channel.max_duty,
{
    if duty < channel.min_duty {
        channel.min_duty
    } else if duty > channel.max_duty {
        channel.max_duty
    } else {
        duty
    }
}

/// The 40-byte duty table: every byte carries the (already clamped) duty,
/// except the last, which is always the terminator value `100` the firmware
/// requires, whatever duty was requested.
pub fn create_fixed_speed_table(duty: u8) -> (table: Vec<u8>)
    ensures
        table@.len() == TABLE_SIZE,
        forall|i: int| 0 <= i < TABLE_SIZE - 1 ==> table@[i] == duty,
        table@[TABLE_SIZE - 1] == 100u8,
{
    let mut table: Vec<u8> = Vec::new();
    let mut i: usize = 0;
    while i < TABLE_SIZE - 1
        invariant
            table@.len() == i,
            0 <= i <= TABLE_SIZE - 1,
            forall|j: int| 0 <= j < i ==> table@[j] == duty,
        decreases TABLE_SIZE - i,
    {
        table.push(duty);
        i = i + 1;
    }
    table.push(100);
    table
}

/// The complete duty command for a channel: the header
/// `[0x72, channel id, 0x00, 0x00]` followed by the duty table, the duty
/// clamped to the channel's bounds first. The last byte is always the
/// terminator `100`.
pub fn encode_fixed_speed_command(duty: u8, channel: &Channel) -> (msg: Vec<u8>)
    requires
        channel.min_duty <= channel.max_duty,
    ensures
        msg@.len() == HEADER_SIZE + TABLE_SIZE,
        msg@[0] == 0x72u8,
        msg@[1] == channel.id,
        msg@[2] == 0u8,
        msg@[3] == 0u8,
        forall|i: int|
            HEADER_SIZE <= i < HEADER_SIZE + TABLE_SIZE - 1 ==> msg@[i] == clamp_duty(
                duty,
                channel.min_duty,
                channel.max_duty,
            ),
        msg@[HEADER_SIZE + TABLE_SIZE - 1] == 100u8,
{
    let clamped = clamp_to_channel(duty, channel);
    let table = create_fixed_speed_table(clamped);
    let mut msg: Vec<u8> = Vec::new();
    msg.push(0x72);
    msg.push(channel.id);
    msg.push(0x00);
    msg.push(0x00);
    let mut i: usize = 0;
    while i < TABLE_SIZE
        invariant
            msg@.len() == HEADER_SIZE + i,
            0 <= i <= TABLE_SIZE,
            table@.len() == TABLE_SIZE,
            forall|j: int| 0 <= j < TABLE_SIZE - 1 ==> table@[j] == clamped,
            table@[TABLE_SIZE - 1] == 100u8,
            msg@[0] == 0x72u8,
            msg@[1] == channel.id,
            msg@[2] == 0u8,
            msg@[3] == 0u8,
            forall|j: int| 0 <= j < i ==> msg@[HEADER_SIZE + j] == table@[j],
        decreases TABLE_SIZE - i,
    {
        let b = table[i];
        msg.push(b);
        i = i + 1;
    }
    proof {
        assert forall|j: int|
            HEADER_SIZE <= j < HEADER_SIZE + TABLE_SIZE - 1 implies msg@[j] == clamped by {
            assert(msg@[HEADER_SIZE + (j - HEADER_SIZE)] == table@[j - HEADER_SIZE]);
        }
        assert(msg@[HEADER_SIZE + (TABLE_SIZE - 1)] == table@[TABLE_SIZE - 1]);
    }
    msg
}

/// The one-time initialization handshake: the two messages to write to the
/// device, in order, before the first duty command.
pub fn init_handshake_messages() -> (msgs: Vec<Vec<u8>>)
    ensures
        msgs@.len() == 2,
        msgs@[0]@ =~= seq![0x10u8, 0x01u8],
        msgs@[1]@ =~= seq![0x20u8, 0x03u8],
{
    let mut first: Vec<u8> = Vec::new();
    first.push(0x10);
    first.push(0x01);
    let mut second: Vec<u8> = Vec::new();
    second.push(0x20);
    second.push(0x03);
    let mut msgs: Vec<Vec<u8>> = Vec::new();
    msgs.push(first);
    msgs.push(second);
    msgs
}

/// The device filters of the implemented cooler model: a single entry with
/// its vendor and product ids.
pub fn kraken3_filters() -> (filters: Vec<DeviceFilter>)
    ensures
        filters@.len() == 1,
        filters@[0].vendor == KRAKEN3_VENDOR_ID,
        filters@[0].product == KRAKEN3_PRODUCT_ID,
{
    let mut filters: Vec<DeviceFilter> = Vec::new();
    filters.push(DeviceFilter { vendor: KRAKEN3_VENDOR_ID, product: KRAKEN3_PRODUCT_ID });
    filters
}

} // verus!
