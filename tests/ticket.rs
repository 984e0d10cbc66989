use sendme::error::ErrorKind;
use sendme::ticket::{apply_options, needs_discovery, parse_ticket, AddrInfoOptions, BlobFormat, EndpointAddr, RelayModeOption, TransportAddr};

const PEER: &str = "ae58ff8833241ac82d6ff7611046ed67b5072d142c588d0063e942d9a75502b6";
const HASH: &str = "0b84d358e4c8be6c38626b2182ff575818ba6bd3f4b90464994be14cb354a072";

fn id_only_ticket() -> String {
    let mut bytes = vec![0u8];
    bytes.extend(hex::decode(PEER).unwrap());
    bytes.push(0);
    bytes.push(0);
    bytes.push(1);
    bytes.extend(hex::decode(HASH).unwrap());
    format!("blob{}", data_encoding::BASE32_NOPAD.encode(&bytes).to_ascii_lowercase())
}

fn sample() -> EndpointAddr {
    EndpointAddr {
        id: [3; 32],
        addrs: vec![
            TransportAddr::Relay("https://relay.example/".to_string()),
            TransportAddr::Ip("192.168.1.2:4000".to_string()),
            TransportAddr::Ip("10.0.0.1:5000".to_string()),
        ],
    }
}

fn kinds(a: &EndpointAddr) -> Vec<&'static str> {
    a.addrs
        .iter()
        .map(|t| match t {
            TransportAddr::Relay(_) => "relay",
            TransportAddr::Ip(_) => "ip",
            TransportAddr::Custom => "custom",
        })
        .collect()
}

#[test]
fn options_filter_addresses() {
    let mut a = sample();
    apply_options(&mut a, AddrInfoOptions::Id);
    assert!(a.addrs.is_empty());
    assert_eq!(a.id, [3; 32]);
    let mut r = sample();
    apply_options(&mut r, AddrInfoOptions::Relay);
    assert_eq!(kinds(&r), vec!["relay"]);
    let mut d = sample();
    apply_options(&mut d, AddrInfoOptions::Addresses);
    assert_eq!(kinds(&d), vec!["ip", "ip"]);
    let mut all = sample();
    apply_options(&mut all, AddrInfoOptions::RelayAndAddresses);
    assert_eq!(kinds(&all), vec!["relay", "ip", "ip"]);
}

#[test]
fn discovery_only_without_addresses() {
    let mut a = sample();
    assert!(!needs_discovery(&a));
    apply_options(&mut a, AddrInfoOptions::Id);
    assert!(needs_discovery(&a));
    let custom = EndpointAddr { id: [0; 32], addrs: vec![TransportAddr::Custom] };
    assert!(needs_discovery(&custom));
}

#[test]
fn id_only_ticket_parses_with_empty_addresses() {
    let t = id_only_ticket();
    let info = parse_ticket(&t).ok().unwrap();
    assert_eq!(info.hash.to_vec(), hex::decode(HASH).unwrap());
    assert_eq!(info.addr.id.to_vec(), hex::decode(PEER).unwrap());
    assert_eq!(info.format, BlobFormat::HashSeq);
    assert!(info.addr.addrs.is_empty());
    assert!(needs_discovery(&info.addr));
}

#[test]
fn ticket_input_is_trimmed_and_prefix_stripped() {
    let t = id_only_ticket();
    let input = format!("  receive   {}\n", t);
    let info = parse_ticket(&input).ok().unwrap();
    assert_eq!(info.hash.to_vec(), hex::decode(HASH).unwrap());
}

#[test]
fn bad_tickets_fail_to_parse() {
    assert_eq!(parse_ticket("not a ticket").err(), Some(ErrorKind::TicketParse));
    assert_eq!(parse_ticket("").err(), Some(ErrorKind::TicketParse));
    let t = id_only_ticket();
    assert_eq!(parse_ticket(&t.to_uppercase()).err(), Some(ErrorKind::TicketParse));
}

#[test]
fn default_options_keep_relays_and_addresses() {
    assert_eq!(AddrInfoOptions::default(), AddrInfoOptions::RelayAndAddresses);
}

#[test]
fn relay_modes_read_and_print() {
    use_relay("disabled", "disabled");
    use_relay("default", "default");
    use_relay("https://relay.example/", "https://relay.example/");
    assert!(matches!(RelayModeOption::from_text("disabled"), RelayModeOption::Disabled));
    assert!(matches!(RelayModeOption::from_text("default"), RelayModeOption::Default));
    assert!(matches!(RelayModeOption::from_text("Default"), RelayModeOption::Custom(_)));
}

fn use_relay(input: &str, expected: &str) {
    assert_eq!(RelayModeOption::from_text(input).text(), expected);
}
