use openrgb_dark_controller::effects::{
    get_active_effects, list_effects_command, load_effect_profile, master_off_command,
    stop_all_effects, stop_effect_by_name, CMD_LIST_EFFECTS, CMD_LOAD_PROFILE, CMD_MASTER_OFF,
    CMD_STOP_EFFECT, EFFECTS_PLUGIN,
};
use openrgb_dark_controller::wire::{encode_plugin_request, reply_data_size, PLUGIN_PACKET_ID};

fn record(name: &[u8], desc: &[u8], enabled: u8) -> Vec<u8> {
    let mut v = Vec::new();
    v.extend_from_slice(&(name.len() as u16).to_le_bytes());
    v.extend_from_slice(name);
    v.extend_from_slice(&(desc.len() as u16).to_le_bytes());
    v.extend_from_slice(desc);
    v.push(enabled);
    v
}

fn reply(count: u16, records: &[Vec<u8>]) -> Vec<u8> {
    let mut v = vec![0u8, 0, 0, 0, 7, 7, 7, 7];
    v.extend_from_slice(&count.to_le_bytes());
    for r in records {
        v.extend_from_slice(r);
    }
    v
}

#[test]
fn request_frame_layout() {
    let r = encode_plugin_request(0, 21, &[1, 2]);
    assert_eq!(
        r.header,
        vec![b'O', b'R', b'G', b'B', 0, 0, 0, 0, 201, 0, 0, 0, 6, 0, 0, 0]
    );
    assert_eq!(r.body, vec![21, 0, 0, 0, 1, 2]);
    assert_eq!(PLUGIN_PACKET_ID, 201);
}

#[test]
fn request_frame_multibyte_fields() {
    let r = encode_plugin_request(0x0102_0304, 0xA0B0_C0D0, &[]);
    assert_eq!(&r.header[4..8], &[4, 3, 2, 1]);
    assert_eq!(&r.header[12..16], &[4, 0, 0, 0]);
    assert_eq!(r.body, vec![0xD0, 0xC0, 0xB0, 0xA0]);
}

#[test]
fn reply_size_reads_bytes_12_to_15() {
    let h = [b'O', b'R', b'G', b'B', 0, 0, 0, 0, 201, 0, 0, 0, 0x10, 0x27, 0, 0];
    assert_eq!(reply_data_size(&h), 10000);
    let h2 = [0u8, 0, 0, 0, 0, 0, 0, 0, 0, 0, 0, 0, 0xff, 0xff, 0xff, 0xff];
    assert_eq!(reply_data_size(&h2), u32::MAX);
}

#[test]
fn reply_size_of_own_header() {
    let r = encode_plugin_request(3, 23, &[9; 300]);
    assert_eq!(reply_data_size(&r.header), 304);
    assert_eq!(r.body.len(), 304);
}

#[test]
fn stop_command_payload() {
    let c = stop_effect_by_name("Rainbow");
    assert_eq!(c.plugin_idx, EFFECTS_PLUGIN);
    assert_eq!(c.cmd_id, CMD_STOP_EFFECT);
    assert_eq!(c.cmd_id, 21);
    let mut expected = vec![8u8, 0];
    expected.extend_from_slice(b"Rainbow");
    expected.push(0);
    assert_eq!(c.payload, expected);
    let r = c.encode();
    assert_eq!(&r.header[12..16], &[14, 0, 0, 0]);
    assert_eq!(&r.body[0..4], &[21, 0, 0, 0]);
}

#[test]
fn stop_command_utf8_name() {
    let c = stop_effect_by_name("Brillé");
    assert_eq!(c.payload, vec![8, 0, b'B', b'r', b'i', b'l', b'l', 0xC3, 0xA9, 0]);
}

#[test]
fn load_profile_command_payload() {
    let c = load_effect_profile("base");
    assert_eq!(c.cmd_id, CMD_LOAD_PROFILE);
    assert_eq!(c.cmd_id, 23);
    assert_eq!(c.payload, vec![5, 0, b'b', b'a', b's', b'e', 0]);
    let empty = load_effect_profile("");
    assert_eq!(empty.payload, vec![1, 0, 0]);
}

#[test]
fn list_and_master_off_commands() {
    let l = list_effects_command();
    assert_eq!((l.plugin_idx, l.cmd_id, l.payload.len()), (0, CMD_LIST_EFFECTS, 0));
    let m = master_off_command();
    assert_eq!((m.plugin_idx, m.cmd_id, m.payload.len()), (0, CMD_MASTER_OFF, 0));
    assert_eq!(CMD_MASTER_OFF, 10);
}

#[test]
fn short_reply_names_nothing() {
    assert!(get_active_effects(&[]).is_empty());
    assert!(get_active_effects(&[0, 0, 0, 0, 0, 0, 0, 0, 1]).is_empty());
}

#[test]
fn reply_with_two_effects() {
    let data = reply(
        2,
        &[record(b"Rainbow\0", b"colours", 1), record(b"Breathing\0", b"", 0)],
    );
    assert_eq!(get_active_effects(&data), vec!["Rainbow".to_string(), "Breathing".to_string()]);
}

#[test]
fn count_limits_records() {
    let data = reply(1, &[record(b"A", b"", 1), record(b"B", b"", 1)]);
    assert_eq!(get_active_effects(&data), vec!["A".to_string()]);
    let none = reply(0, &[record(b"A", b"", 1)]);
    assert!(get_active_effects(&none).is_empty());
}

#[test]
fn empty_name_field_is_skipped() {
    let mut data = reply(3, &[]);
    data.extend_from_slice(&[0, 0]);
    data.extend_from_slice(&record(b"X", b"d", 1));
    data.extend_from_slice(&record(b"Y", b"", 1));
    assert_eq!(get_active_effects(&data), vec!["X".to_string(), "Y".to_string()]);
}

#[test]
fn only_one_trailing_nul_is_stripped() {
    let data = reply(1, &[record(b"Z\0\0", b"", 1)]);
    assert_eq!(get_active_effects(&data), vec!["Z\0".to_string()]);
}

#[test]
fn truncated_name_stops_reading() {
    let mut data = reply(2, &[record(b"Ok", b"", 1)]);
    data.extend_from_slice(&[10, 0, b'a', b'b']);
    assert_eq!(get_active_effects(&data), vec!["Ok".to_string()]);
}

#[test]
fn name_kept_when_description_is_cut() {
    let mut data = reply(2, &[]);
    data.extend_from_slice(&[3, 0, b'a', b'b', b'c']);
    assert_eq!(get_active_effects(&data), vec!["abc".to_string()]);
    let mut data2 = reply(2, &[]);
    data2.extend_from_slice(&[3, 0, b'a', b'b', b'c', 5, 0, b'x']);
    assert_eq!(get_active_effects(&data2), vec!["abc".to_string()]);
    let mut data3 = reply(2, &[]);
    data3.extend_from_slice(&[3, 0, b'a', b'b', b'c', 1, 0, b'x']);
    data3.extend_from_slice(&record(b"more", b"", 1));
    assert_eq!(get_active_effects(&data3), vec!["abc".to_string()]);
}

#[test]
fn invalid_utf8_is_replaced() {
    let data = reply(1, &[record(&[b'a', 0xff, b'b', 0], b"", 1)]);
    assert_eq!(get_active_effects(&data), vec!["a\u{FFFD}b".to_string()]);
}

#[test]
fn stop_all_without_list_only_switches_off() {
    let cmds = stop_all_effects(None);
    assert_eq!(cmds.len(), 1);
    assert_eq!(cmds[0].cmd_id, CMD_MASTER_OFF);
    assert!(cmds[0].payload.is_empty());
}

#[test]
fn stop_all_stops_each_listed_effect_then_switches_off() {
    let data = reply(2, &[record(b"Rainbow\0", b"", 1), record(b"Wave\0", b"", 1)]);
    let cmds = stop_all_effects(Some(&data));
    assert_eq!(cmds.len(), 3);
    assert_eq!(cmds[0].cmd_id, CMD_STOP_EFFECT);
    assert_eq!(cmds[0].payload, stop_effect_by_name("Rainbow").payload);
    assert_eq!(cmds[1].payload, stop_effect_by_name("Wave").payload);
    assert_eq!(cmds[2].cmd_id, CMD_MASTER_OFF);
}

#[test]
fn stopped_name_reads_back_from_a_list() {
    let c = stop_effect_by_name("Spectrum Cycle");
    let mut data = reply(1, &[]);
    data.extend_from_slice(&c.payload);
    data.extend_from_slice(&[0, 0, 1]);
    assert_eq!(get_active_effects(&data), vec!["Spectrum Cycle".to_string()]);
}
