//! Wire protocol of an HDMI matrix switch: fixed-size command frames whose last
//! byte is a checksum, and the decoding of its responses into a routing status.
use vstd::prelude::*;
use crate::robotica::Id;
use crate::tasks::{MqttMessage, MqttMessageV, QoS, Retain};
use crate::text::{decimal, push_decimal, string_of};

verus! {

broadcast use vstd::string::group_string_axioms;

/// Length of every command and response frame.
pub const FRAME_LEN: usize = 13;

/// Number of outputs of the matrix.
pub const NUM_OUTPUTS: usize = 4;

/// A command to send to the HDMI matrix.
#[derive(Clone, Copy, Debug, PartialEq, Eq)]
pub enum Command {
    /// Set input for output.
    SetInput(u8, u8),
    /// Shutdown the server.
    Shutdown,
}

/// Options for HDMI matrix.
#[derive(Clone, Copy, Debug, Default, PartialEq, Eq)]
pub struct Options {
    /// Should we disable the polling of the HDMI matrix?
    pub disable_polling: bool,
}

/// The input selected for each output, as last reported by the matrix.
pub type Status = [Option<u8>; 4];

/// Sum of the bytes of a frame, as a mathematical integer.
pub open spec fn byte_sum(bytes: Seq<u8>) -> nat
    decreases bytes.len(),
{
    if bytes.len() == 0 {
        0
    } else {
        byte_sum(bytes.drop_last()) + bytes.last() as nat
    }
}

/// The checksum of a frame body: the low byte of the sum for long bodies, and its
/// two's complement otherwise (so that a whole frame sums to zero modulo 256).
pub open spec fn spec_checksum(bytes: Seq<u8>) -> u8 {
    let low = byte_sum(bytes) % 256;
    if bytes.len() > 13 {
        low as u8
    } else {
        ((256 - low) % 256) as u8
    }
}

/// Calculate the checksum of the given bytes.
pub fn calc_checksum(bytes: &[u8]) -> (checksum: u8)
    ensures
        checksum == spec_checksum(bytes@),
{
    let mut sum: u16 = 0;
    let mut i: usize = 0;
    while i < bytes.len()
        invariant
            i <= bytes@.len(),
            sum as nat == byte_sum(bytes@.take(i as int)) % 65536,
        decreases bytes@.len() - i,
    {
        let byte = bytes[i];
        assert(bytes@.take(i as int + 1).drop_last() =~= bytes@.take(i as int));
        sum = sum.wrapping_add(byte as u16);
        i = i + 1;
    }
    assert(bytes@.take(bytes@.len() as int) =~= bytes@);
    let low: u16 = sum & 0xff;
    assert(sum & 0xff == sum % 256) by (bit_vector);
    proof {
        let total = byte_sum(bytes@);
        assert(sum as nat % 256 == total % 256) by (nonlinear_arith)
            requires
                sum as nat == total % 65536,
        ;
    }
    if bytes.len() > 13 {
        low as u8
    } else {
        ((0x100 - low) % 0x100) as u8
    }
}

/// Replace the last byte of a frame with the checksum of the bytes before it.
pub fn add_checksum(bytes: &mut [u8])
    requires
        old(bytes)@.len() >= 1,
    ensures
        final(bytes)@.len() == old(bytes)@.len(),
        final(bytes)@.drop_last() == old(bytes)@.drop_last(),
        final(bytes)@.last() == spec_checksum(old(bytes)@.drop_last()),
{
    let last = bytes.len() - 1;
    let checksum = calc_checksum(&bytes[0..last]);
    bytes[last] = checksum;
    assert(final(bytes)@.drop_last() =~= old(bytes)@.drop_last());
}

/// Does the last byte of the frame hold the checksum of the bytes before it?
pub fn check_checksum(bytes: &[u8]) -> (valid: bool)
    requires
        bytes@.len() >= 1,
    ensures
        valid == (bytes@.last() == spec_checksum(bytes@.drop_last())),
{
    let last = bytes.len() - 1;
    let checksum = calc_checksum(&bytes[0..last]);
    checksum == bytes[last]
}


/// Body (all bytes but the checksum) of the frame that routes `input` to `output`.
pub open spec fn switch_body(input: u8, output: u8) -> Seq<u8> {
    seq![0xa5u8, 0x5b, 0x02, 0x03, input, 0x00, output, 0x00, 0x00, 0x00, 0x00, 0x00]
}

/// Body (all bytes but the checksum) of the frame that asks which input feeds `output`.
pub open spec fn query_body(output: u8) -> Seq<u8> {
    seq![0xa5u8, 0x5b, 0x02, 0x01, output, 0x00, 0x00, 0x00, 0x00, 0x00, 0x00, 0x00]
}

/// Get the command frame that routes `input` to `output`.
pub fn get_cmd_switch(input: u8, output: u8) -> (frame: [u8; 13])
    ensures
        frame@ == switch_body(input, output).push(spec_checksum(switch_body(input, output))),
{
    let mut bytes: [u8; 13] = [
        0xa5, 0x5b, 0x02, 0x03, 0x00, 0x00, 0x00, 0x00, 0x00, 0x00, 0x00, 0x00, 0xff,
    ];
    bytes[4] = input;
    bytes[6] = output;
    add_checksum(&mut bytes);
    assert(bytes@.drop_last() =~= switch_body(input, output));
    assert(bytes@ =~= switch_body(input, output).push(spec_checksum(switch_body(input, output))));
    bytes
}

/// Get the command frame that asks which input is routed to `output`.
pub fn get_cmd_input_for_output(output: u8) -> (frame: [u8; 13])
    ensures
        frame@ == query_body(output).push(spec_checksum(query_body(output))),
{
    let mut bytes: [u8; 13] = [
        0xa5, 0x5b, 0x02, 0x01, 0x00, 0x00, 0x00, 0x00, 0x00, 0x00, 0x00, 0x00, 0xff,
    ];
    bytes[4] = output;
    add_checksum(&mut bytes);
    assert(bytes@.drop_last() =~= query_body(output));
    assert(bytes@ =~= query_body(output).push(spec_checksum(query_body(output))));
    bytes
}

/// The status after learning that `output` (numbered from 1) shows `input`;
/// outputs the matrix does not have leave the status unchanged.
pub open spec fn spec_record_input(status: Seq<Option<u8>>, output: u8, input: u8) -> Seq<Option<u8>> {
    if 1 <= output <= 4 {
        status.update(output - 1, Some(input))
    } else {
        status
    }
}

/// Record that `output` (numbered from 1) shows `input`.
pub fn record_input(status: &Status, output: u8, input: u8) -> (new_status: Status)
    requires
        output >= 1,
    ensures
        new_status@ == spec_record_input(status@, output, input),
{
    let mut new_status = *status;
    let index = (output - 1) as usize;
    if index < NUM_OUTPUTS {
        new_status[index] = Some(input);
    }
    assert(new_status@ =~= spec_record_input(status@, output, input));
    new_status
}

/// Update the status from the response to a query frame: byte 4 names the output
/// and byte 6 the input routed to it.
pub fn apply_query_response(status: &Status, response: &[u8; 13]) -> (new_status: Status)
    requires
        response@[4] >= 1,
    ensures
        new_status@ == spec_record_input(status@, response@[4], response@[6]),
{
    record_input(status, response[4], response[6])
}

/// Update the status from the response to a switch frame: the response names the
/// output in byte 6 and does not repeat the selected input.
pub fn apply_switch_response(status: &Status, input: u8, response: &[u8; 13]) -> (new_status: Status)
    requires
        response@[6] >= 1,
    ensures
        new_status@ == spec_record_input(status@, response@[6], input),
{
    record_input(status, response[6], input)
}


/// The text published for an output: the input shown, or `HARD_OFF` when unknown.
pub open spec fn spec_map_input(value: Option<u8>) -> Seq<char> {
    match value {
        Some(v) => decimal(v as nat),
        None => "HARD_OFF"@,
    }
}

/// The text published for an output: see `spec_map_input`.
pub fn map_input(value: Option<u8>) -> (s: String)
    ensures
        s@ == spec_map_input(value),
{
    match value {
        Some(v) => {
            let mut s = String::new();
            push_decimal(&mut s, v as usize);
            s
        },
        None => string_of("HARD_OFF"),
    }
}

/// The retained state messages of a status: for each output `n` (from 1), the
/// input it shows on topic `state/location/device/output<n>`. A failed read
/// publishes every output as unknown.
pub open spec fn spec_status_messages(location: Seq<char>, device: Seq<char>, status: Option<Seq<Option<u8>>>) -> Seq<MqttMessageV> {
    Seq::new(4, |i: int| MqttMessageV {
        topic: "state/"@ + location + seq!['/'] + device + seq!['/'] + ("output"@ + decimal((i + 1) as nat)),
        payload: spec_map_input(match status { Some(s) => s[i], None => None }),
        retain: Retain::Retain,
        qos: QoS::AtLeastOnce,
    })
}

/// The retained state messages of a status: see `spec_status_messages`.
pub fn status_messages(id: &Id, status: Option<Status>) -> (messages: Vec<MqttMessage>)
    ensures
        messages@.map_values(|m: MqttMessage| m@) == spec_status_messages(id.location@, id.device@,
            match status { Some(s) => Some(s@), None => None }),
{
    let st: Status = match status {
        Some(s) => s,
        None => [None, None, None, None],
    };
    let ghost target = spec_status_messages(id.location@, id.device@, match status { Some(s) => Some(s@), None => None });
    let mut messages: Vec<MqttMessage> = Vec::new();
    let mut i: usize = 0;
    while i < NUM_OUTPUTS
        invariant
            i <= NUM_OUTPUTS,
            target == spec_status_messages(id.location@, id.device@, match status { Some(s) => Some(s@), None => None }),
            forall|k: int| 0 <= k < 4 ==> st@[k] == match status { Some(s) => s@[k], None => None::<u8> },
            messages@.len() == i,
            forall|k: int| 0 <= k < i ==> #[trigger] messages@[k]@ == target[k],
        decreases NUM_OUTPUTS - i,
    {
        let mut component = string_of("output");
        push_decimal(&mut component, i + 1);
        let topic = id.get_state_topic(component.as_str());
        messages.push(MqttMessage { topic, payload: map_input(st[i]), retain: Retain::Retain, qos: QoS::AtLeastOnce });
        i = i + 1;
    }
    assert(messages@.map_values(|m: MqttMessage| m@) =~= target);
    messages
}

/// Law: the frames the library builds pass the checksum test.
pub proof fn law_commands_carry_valid_checksum(input: u8, output: u8)
    ensures
        ({
            let f = switch_body(input, output).push(spec_checksum(switch_body(input, output)));
            f.last() == spec_checksum(f.drop_last())
        }),
        ({
            let f = query_body(output).push(spec_checksum(query_body(output)));
            f.last() == spec_checksum(f.drop_last())
        }),
{
    let f = switch_body(input, output).push(spec_checksum(switch_body(input, output)));
    assert(f.drop_last() =~= switch_body(input, output));
    let g = query_body(output).push(spec_checksum(query_body(output)));
    assert(g.drop_last() =~= query_body(output));
}

/// Law: after an input is recorded for an output (1 to 4), that output shows
/// the input and the other outputs are as they were.
pub proof fn law_record_read_after_write(status: Seq<Option<u8>>, output: u8, input: u8, other: int)
    requires
        status.len() == 4,
        1 <= output <= 4,
        0 <= other < 4,
    ensures
        spec_record_input(status, output, input)[output - 1] == Some(input),
        other != output - 1 ==> spec_record_input(status, output, input)[other] == status[other],
{
}

proof fn lemma_byte_sum_update(s: Seq<u8>, i: int, v: u8)
    requires
        0 <= i < s.len(),
    ensures
        byte_sum(s.update(i, v)) == byte_sum(s) - s[i] + v,
    decreases s.len(),
{
    let t = s.update(i, v);
    if i == s.len() - 1 {
        assert(t.drop_last() =~= s.drop_last());
    } else {
        assert(t.drop_last() =~= s.drop_last().update(i, v));
        lemma_byte_sum_update(s.drop_last(), i, v);
    }
}

/// Law: changing one byte of a frame that passes the checksum test makes it
/// fail the test.
pub proof fn law_one_changed_byte_fails_check(frame: Seq<u8>, i: int, v: u8)
    requires
        frame.len() >= 1,
        frame.last() == spec_checksum(frame.drop_last()),
        0 <= i < frame.len(),
        v != frame[i],
    ensures
        frame.update(i, v).last() != spec_checksum(frame.update(i, v).drop_last()),
{
    let g = frame.update(i, v);
    if i == frame.len() - 1 {
        assert(g.drop_last() =~= frame.drop_last());
    } else {
        let body = frame.drop_last();
        assert(g.drop_last() =~= body.update(i, v));
        lemma_byte_sum_update(body, i, v);
        let a = byte_sum(body) as int;
        let b = byte_sum(body.update(i, v)) as int;
        let d = v as int - frame[i] as int;
        assert(b == a + d);
        assert(a % 256 != b % 256) by (nonlinear_arith)
            requires
                b == a + d,
                -256 < d < 256,
                d != 0,
                a >= 0,
                b >= 0;
        assert(g.last() == frame.last());
    }
}

} // verus!
