use ypf_ruta::address::NodeAddr;
use ypf_ruta::conn_table::ConnTable;
use ypf_ruta::frame::{frame, frame_payload_len};
use ypf_ruta::errors::{AppError, DecodeError};
use ypf_ruta::node::messages::StationToNodeMsg;
use ypf_ruta::station::{
    charge_request, classify_line, parse_command, parse_unsigned_token, split_tokens,
    station_action, CommandError, PumpTable, StationAction, StationInput,
};

fn bytes(s: &str) -> Vec<u8> {
    s.as_bytes().to_vec()
}

#[test]
fn console_words_are_recognised_in_any_case() {
    assert_eq!(classify_line(&bytes("   ")), StationInput::Empty);
    assert_eq!(classify_line(&bytes(" QUIT ")), StationInput::Quit);
    assert_eq!(classify_line(&bytes("exit")), StationInput::Quit);
    assert_eq!(classify_line(&bytes("Help")), StationInput::Help);
    assert_eq!(classify_line(&bytes("disconnect\n")), StationInput::Disconnect);
    assert_eq!(classify_line(&bytes("\tconnect")), StationInput::Connect);
    assert_eq!(classify_line(&bytes("0 1 10 50.0")), StationInput::Command);
    assert_eq!(classify_line(&bytes("connected")), StationInput::Command);
}

#[test]
fn lines_split_on_whitespace() {
    let t = split_tokens(&bytes("  0 1\t10   50.0 "));
    assert_eq!(t, vec![bytes("0"), bytes("1"), bytes("10"), bytes("50.0")]);
    assert!(split_tokens(&bytes("   ")).is_empty());
}

#[test]
fn unsigned_numbers_read_like_std() {
    assert_eq!(parse_unsigned_token(&bytes("42"), u64::MAX), Some(42));
    assert_eq!(parse_unsigned_token(&bytes("+7"), u64::MAX), Some(7));
    assert_eq!(parse_unsigned_token(&bytes("18446744073709551615"), u64::MAX), Some(u64::MAX));
    assert_eq!(parse_unsigned_token(&bytes("18446744073709551616"), u64::MAX), None);
    assert_eq!(parse_unsigned_token(&bytes("-1"), u64::MAX), None);
    assert_eq!(parse_unsigned_token(&bytes("+"), u64::MAX), None);
    assert_eq!(parse_unsigned_token(&bytes(""), u64::MAX), None);
    assert_eq!(parse_unsigned_token(&bytes("1x"), u64::MAX), None);
    assert_eq!(parse_unsigned_token(&bytes("300"), 255), None);
    assert_eq!(parse_unsigned_token(&bytes("7"), 5), None);
    assert_eq!(parse_unsigned_token(&bytes("3"), 5), Some(3));
}

#[test]
fn a_command_reads_pump_account_card_and_amount() {
    let c = parse_command(&bytes("1 2 20 150.25"), 4).unwrap();
    assert_eq!(c.pump_id, 1);
    assert_eq!(c.account_id, 2);
    assert_eq!(c.card_id, 20);
    assert_eq!(c.amount_text, bytes("150.25"));
}

#[test]
fn command_errors_name_the_first_bad_field() {
    assert_eq!(parse_command(&bytes("1 2 3"), 4).err(), Some(CommandError::WrongTokenCount { count: 3 }));
    assert_eq!(parse_command(&bytes("x 2 3 4"), 4).err(), Some(CommandError::InvalidPumpId));
    assert_eq!(
        parse_command(&bytes("4 2 3 4"), 4).err(),
        Some(CommandError::PumpOutOfRange { pump_id: 4, num_pumps: 4 })
    );
    assert_eq!(parse_command(&bytes("0 a 3 4"), 4).err(), Some(CommandError::InvalidAccountId));
    assert_eq!(parse_command(&bytes("0 2 b 4"), 4).err(), Some(CommandError::InvalidCardId));
}

#[test]
fn a_pump_takes_one_charge_at_a_time() {
    let mut t = PumpTable::new(2);
    assert_eq!(t.register(0, 1, 10, 5000), Ok(1));
    assert_eq!(t.register(0, 1, 10, 100), Err(CommandError::PumpBusy { pump_id: 0, request_id: 1 }));
    assert_eq!(t.register(1, 1, 11, 100), Ok(2));
    assert_eq!(t.register(2, 1, 11, 100), Err(CommandError::PumpOutOfRange { pump_id: 2, num_pumps: 2 }));
    let done = t.complete(1).unwrap();
    assert_eq!(done.pump_id, 0);
    assert_eq!(done.amount, 5000);
    assert!(t.complete(1).is_none());
    assert_eq!(t.register(0, 1, 10, 100), Ok(3));
    t.cancel(1);
    assert_eq!(t.register(1, 1, 11, 100), Ok(4));
}

#[test]
fn lru_eviction_drops_the_least_recently_used() {
    let mut t = ConnTable::new(2);
    let a = t.register(NodeAddr::v4(127, 0, 0, 1, 1), 100);
    let b = t.register(NodeAddr::v4(127, 0, 0, 1, 2), 200);
    assert!(t.evict_lru_if_full().is_some() || a == b);
    if a != b {
        assert_eq!(t.len(), 1);
        assert_eq!(t.find_by_addr(NodeAddr::v4(127, 0, 0, 1, 2), 300), Some(b));
        assert_eq!(t.find_by_addr(NodeAddr::v4(127, 0, 0, 1, 1), 300), None);
    }
}

#[test]
fn reused_connection_is_refreshed() {
    let mut t = ConnTable::new(3);
    let a = t.register(NodeAddr::v4(10, 0, 0, 1, 1), 100);
    let b = t.register(NodeAddr::v4(10, 0, 0, 1, 2), 200);
    if a != b {
        assert_eq!(t.find_by_addr(NodeAddr::v4(10, 0, 0, 1, 1), 300), Some(a));
        let c = t.register(NodeAddr::v4(10, 0, 0, 1, 3), 400);
        if c != a && c != b {
            let evicted = t.evict_lru_if_full().unwrap();
            assert_eq!(evicted.id, b);
            assert_eq!(t.remove(a).map(|e| e.last_used), Some(300));
        }
    }
}

#[test]
fn unicode_whitespace_separates_and_trims_like_std() {
    let line = "\u{a0}0\u{2003}1 10\u{3000}50.0\u{85}";
    let expected: Vec<Vec<u8>> = line.split_whitespace().map(|t| t.as_bytes().to_vec()).collect();
    assert_eq!(split_tokens(&bytes(line)), expected);
    assert_eq!(classify_line(&bytes("\u{2028}quit\u{a0}")), StationInput::Quit);
    assert_eq!(classify_line(&bytes("\u{1680}\u{205f}")), StationInput::Empty);
    let c = parse_command(&bytes(line), 4).unwrap();
    assert_eq!((c.pump_id, c.account_id, c.card_id), (0, 1, 10));
    assert_eq!(c.amount_text, bytes("50.0"));
}

#[test]
fn non_whitespace_multibyte_text_stays_in_its_token() {
    let line = "0 1 10 5\u{e9}0";
    let expected: Vec<Vec<u8>> = line.split_whitespace().map(|t| t.as_bytes().to_vec()).collect();
    assert_eq!(split_tokens(&bytes(line)), expected);
}

#[test]
fn station_lines_map_to_actions() {
    assert!(matches!(station_action(None, 2), StationAction::Stop { end_of_input: true }));
    assert!(matches!(station_action(Some(bytes(" exit ")), 2), StationAction::Stop { end_of_input: false }));
    assert!(matches!(station_action(Some(bytes("")), 2), StationAction::Skip));
    assert!(matches!(station_action(Some(bytes("help")), 2), StationAction::ShowHelp));
    assert!(matches!(
        station_action(Some(bytes("disconnect")), 2),
        StationAction::ToNode(StationToNodeMsg::DisconnectNode)
    ));
    assert!(matches!(
        station_action(Some(bytes("CONNECT")), 2),
        StationAction::ToNode(StationToNodeMsg::ConnectNode)
    ));
    match station_action(Some(bytes("1 7 70 12.5")), 2) {
        StationAction::Charge(c) => {
            assert_eq!((c.pump_id, c.account_id, c.card_id), (1, 7, 70));
            assert_eq!(c.amount_text, bytes("12.5"));
        }
        other => panic!("unexpected action {:?}", other),
    }
    assert!(matches!(
        station_action(Some(bytes("5 7 70 12.5")), 2),
        StationAction::Reject(CommandError::PumpOutOfRange { pump_id: 5, num_pumps: 2 })
    ));
}

#[test]
fn charge_request_registers_the_pump_and_names_the_request() {
    let mut table = PumpTable::new(2);
    let cmd = match station_action(Some(bytes("0 3 30 1.5")), 2) {
        StationAction::Charge(c) => c,
        other => panic!("unexpected action {:?}", other),
    };
    assert_eq!(
        charge_request(&mut table, &cmd, 150),
        Ok(StationToNodeMsg::ChargeRequest { account_id: 3, card_id: 30, amount: 150, request_id: 1 })
    );
    assert_eq!(
        charge_request(&mut table, &cmd, 150),
        Err(CommandError::PumpBusy { pump_id: 0, request_id: 1 })
    );
    assert_eq!(table.next_request_id, 2);
}

#[test]
fn frames_carry_their_length_first() {
    let f = frame(&[1u8, 2, 3, 4, 5]).unwrap();
    assert_eq!(f, vec![0, 5, 1, 2, 3, 4, 5]);
    assert_eq!(frame_payload_len(&f[..2]), 5);
    assert_eq!(frame(&[]).unwrap(), vec![0, 0]);
    let big = vec![0u8; 70000];
    assert_eq!(frame(&big), Err(AppError::InvalidData { reason: DecodeError::FrameTooLong { len: 70000 } }));
    let max = vec![7u8; 65535];
    let f = frame(&max).unwrap();
    assert_eq!(frame_payload_len(&f[..2]), 65535);
    assert_eq!(&f[2..], &max[..]);
}
