use qusb2snes_client::request::{Opcode, Space};
use qusb2snes_client::Request;

#[test]
fn device_list_request() {
    let r = Request::device_list();
    assert_eq!(r.opcode, Opcode::DeviceList);
    assert_eq!(r.space, Space::Snes);
    assert_eq!(r.flags, None);
    assert_eq!(r.operands, None);
    assert_eq!(r.to_json().unwrap(), "{\"Opcode\":\"DeviceList\",\"Space\":\"SNES\"}");
}

#[test]
fn info_request() {
    let r = Request::info();
    assert_eq!(r.opcode, Opcode::Info);
    assert_eq!(r.operands, None);
    assert_eq!(r.to_json().unwrap(), "{\"Opcode\":\"Info\",\"Space\":\"SNES\"}");
}

#[test]
fn attach_request() {
    let r = Request::attach("SD2SNES COM3");
    assert_eq!(r.opcode, Opcode::Attach);
    assert_eq!(r.operands, Some(vec!["SD2SNES COM3".to_string()]));
    assert_eq!(
        r.to_json().unwrap(),
        "{\"Opcode\":\"Attach\",\"Space\":\"SNES\",\"Operands\":[\"SD2SNES COM3\"]}"
    );
}

#[test]
fn attach_request_escapes_device_name() {
    let r = Request::attach("a\"b\\c");
    assert_eq!(
        r.to_json().unwrap(),
        "{\"Opcode\":\"Attach\",\"Space\":\"SNES\",\"Operands\":[\"a\\\"b\\\\c\"]}"
    );
}

#[test]
fn get_address_request_uses_uppercase_hex() {
    let r = Request::get_address(0xF5_0000, 0x400);
    assert_eq!(r.opcode, Opcode::GetAddress);
    assert_eq!(r.space, Space::Snes);
    assert_eq!(r.flags, None);
    assert_eq!(r.operands, Some(vec!["F50000".to_string(), "400".to_string()]));
    assert_eq!(
        r.to_json().unwrap(),
        "{\"Opcode\":\"GetAddress\",\"Space\":\"SNES\",\"Operands\":[\"F50000\",\"400\"]}"
    );
}

#[test]
fn get_address_zero_operands() {
    let r = Request::get_address(0, 0);
    assert_eq!(r.operands, Some(vec!["0".to_string(), "0".to_string()]));
}

#[test]
fn get_address_operands_parse_back() {
    for &(offset, length) in &[(0usize, 0usize), (0xF5_1C00, 1023), (0xABCDEF, 0x10), (usize::MAX, 1)] {
        let r = Request::get_address(offset, length);
        let ops = r.operands.unwrap();
        assert_eq!(usize::from_str_radix(&ops[0], 16).unwrap(), offset);
        assert_eq!(usize::from_str_radix(&ops[1], 16).unwrap(), length);
    }
}

#[test]
fn flags_are_written_when_present() {
    let r = Request {
        opcode: Opcode::PutIPS,
        space: Space::Cmd,
        flags: Some(vec!["A".to_string(), "B".to_string()]),
        operands: Some(vec![]),
    };
    assert_eq!(
        r.to_json().unwrap(),
        "{\"Opcode\":\"PutIPS\",\"Space\":\"CMD\",\"Flags\":[\"A\",\"B\"],\"Operands\":[]}"
    );
}

#[test]
fn defaults_and_wire_names() {
    assert_eq!(Opcode::default(), Opcode::DeviceList);
    assert_eq!(Space::default(), Space::Snes);
    assert_eq!(Opcode::MakeDir.wire_name(), "MakeDir");
    assert_eq!(Opcode::AppVersion.wire_name(), "AppVersion");
    assert_eq!(Space::Cmd.wire_name(), "CMD");
}
