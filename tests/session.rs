use qusb2snes_client::request::Opcode;
use qusb2snes_client::session::{encode_request, expect_binary, expect_text, AddressRead};
use qusb2snes_client::{Qusb2snesError, Request, ResultData};

#[test]
fn multi_page_read_keeps_address_order() {
    let mut read = AddressRead::new(0xF5_0000, 2000);
    let first = read.next_request().unwrap();
    assert_eq!(first.opcode, Opcode::GetAddress);
    assert_eq!(first.operands, Some(vec!["F50000".to_string(), "400".to_string()]));
    read.take_response(ResultData::Binary(vec![0xAA; 1024])).unwrap();
    assert!(!read.is_done());
    let second = read.next_request().unwrap();
    assert_eq!(second.operands, Some(vec!["F50400".to_string(), "3D0".to_string()]));
    read.take_response(ResultData::Binary(vec![0xBB; 976])).unwrap();
    assert!(read.is_done());
    assert!(read.next_request().is_none());
    let memory = read.into_memory();
    assert_eq!(memory.len(), 2000);
    assert!(memory[..1024].iter().all(|&b| b == 0xAA));
    assert!(memory[1024..].iter().all(|&b| b == 0xBB));
}

#[test]
fn single_page_read() {
    let mut read = AddressRead::new(0x10, 4);
    let req = read.next_request().unwrap();
    assert_eq!(req.operands, Some(vec!["10".to_string(), "4".to_string()]));
    read.take_response(ResultData::Binary(vec![1, 2, 3, 4])).unwrap();
    assert!(read.is_done());
    assert_eq!(read.into_memory(), vec![1, 2, 3, 4]);
}

#[test]
fn text_response_to_a_page_fails_the_read() {
    let mut read = AddressRead::new(0, 2048);
    read.take_response(ResultData::Binary(vec![0; 1024])).unwrap();
    let r = read.take_response(ResultData::Text(vec!["x".to_string()]));
    match r {
        Err(Qusb2snesError::FrameError { msg }) => assert_eq!(msg, "Unable to decode response"),
        other => panic!("unexpected {:?}", other),
    }
    assert!(!read.is_done());
}

#[test]
fn expect_text_unwraps_text() {
    let r = expect_text(ResultData::Text(vec!["SD2SNES COM3".to_string()]), "no list");
    assert_eq!(r.unwrap(), vec!["SD2SNES COM3".to_string()]);
    match expect_text(ResultData::Binary(vec![1]), "no list") {
        Err(Qusb2snesError::FrameError { msg }) => assert_eq!(msg, "no list"),
        other => panic!("unexpected {:?}", other),
    }
}

#[test]
fn expect_binary_unwraps_bytes() {
    assert_eq!(expect_binary(ResultData::Binary(vec![5, 6])).unwrap(), vec![5, 6]);
    assert!(matches!(
        expect_binary(ResultData::Text(vec![])),
        Err(Qusb2snesError::FrameError { .. })
    ));
}

#[test]
fn encode_request_gives_wire_text() {
    assert_eq!(
        encode_request(&Request::get_address(0x1C00, 0x10)).unwrap(),
        "{\"Opcode\":\"GetAddress\",\"Space\":\"SNES\",\"Operands\":[\"1C00\",\"10\"]}"
    );
}

#[test]
fn whole_read_joins_pages_in_plan_order() {
    let responses = vec![
        ResultData::Binary(vec![1; 1024]),
        ResultData::Binary(vec![2; 1024]),
        ResultData::Binary(vec![3; 100]),
    ];
    let memory = AddressRead::run(0xF5_0000, 2148, responses).unwrap();
    assert_eq!(memory.len(), 2148);
    assert!(memory[..1024].iter().all(|&b| b == 1));
    assert!(memory[1024..2048].iter().all(|&b| b == 2));
    assert!(memory[2048..].iter().all(|&b| b == 3));
}

#[test]
fn whole_read_fails_on_a_text_page() {
    let responses = vec![ResultData::Binary(vec![1; 1024]), ResultData::Text(vec![])];
    match AddressRead::run(0, 2000, responses) {
        Err(Qusb2snesError::FrameError { msg }) => assert_eq!(msg, "Unable to decode response"),
        other => panic!("unexpected {:?}", other),
    }
}

#[test]
fn encode_request_for_device_list_and_attach() {
    assert_eq!(
        encode_request(&Request::device_list()).unwrap(),
        "{\"Opcode\":\"DeviceList\",\"Space\":\"SNES\"}"
    );
    assert_eq!(
        encode_request(&Request::attach("SD2SNES COM3")).unwrap(),
        "{\"Opcode\":\"Attach\",\"Space\":\"SNES\",\"Operands\":[\"SD2SNES COM3\"]}"
    );
}
