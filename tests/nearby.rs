use sendme::nearby::{DeviceInfo, DeviceType, MulticastMessage, NearbyEvent, NearbyState, TicketRequest, DEFAULT_NEARBY_PORT};

fn info(alias: &str, fp: &str) -> DeviceInfo {
    DeviceInfo {
        alias: alias.to_string(),
        version: "1.0".to_string(),
        device_model: Some("Linux".to_string()),
        device_type: DeviceType::Desktop,
        fingerprint: fp.to_string(),
        download: false,
    }
}

fn announce(alias: &str, fp: &str, announce: bool) -> MulticastMessage {
    MulticastMessage {
        alias: alias.to_string(),
        version: "1.0".to_string(),
        device_model: None,
        device_type: DeviceType::Mobile,
        fingerprint: fp.to_string(),
        port: 53318,
        announce,
        download: false,
    }
}

#[test]
fn first_announcement_discovers_then_updates() {
    let mut s = NearbyState::new(info("Laptop", "fp-laptop"), DEFAULT_NEARBY_PORT);
    s.server_running = true;
    let out = s.handle_multicast_message(announce("Phone", "fp-phone", true), "192.168.1.9".to_string(), 1_000);
    match out.event {
        Some(NearbyEvent::DeviceDiscovered(d)) => {
            assert_eq!(d.alias, "Phone");
            assert_eq!(d.ip, "192.168.1.9");
            assert_eq!(d.port, 53318);
            assert!(d.available);
        }
        _ => panic!("expected discovery"),
    }
    let reply = out.reply.unwrap();
    assert!(!reply.announce);
    assert_eq!(reply.fingerprint, "fp-laptop");
    assert_eq!(reply.port, DEFAULT_NEARBY_PORT);
    let again = s.handle_multicast_message(announce("Phone", "fp-phone", false), "192.168.1.9".to_string(), 2_000);
    assert!(matches!(again.event, Some(NearbyEvent::DeviceUpdated(_))));
    assert!(again.reply.is_none());
    let devices = s.devices();
    assert_eq!(devices.len(), 1);
    assert_eq!(devices[0].alias, "Phone");
    assert_eq!(devices[0].last_seen, 2_000);
}

#[test]
fn own_announcements_are_ignored() {
    let mut s = NearbyState::new(info("Laptop", "fp-laptop"), DEFAULT_NEARBY_PORT);
    let out = s.handle_multicast_message(announce("Laptop", "fp-laptop", true), "127.0.0.1".to_string(), 5);
    assert!(out.event.is_none());
    assert!(out.reply.is_none());
    assert!(s.devices().is_empty());
}

#[test]
fn silent_devices_expire_after_thirty_seconds() {
    let mut s = NearbyState::new(info("Laptop", "fp-laptop"), DEFAULT_NEARBY_PORT);
    s.handle_multicast_message(announce("Phone", "fp-phone", false), "10.0.0.2".to_string(), 10_000);
    assert!(s.expire_devices(40_000).is_empty());
    assert_eq!(s.devices().len(), 1);
    let expired = s.expire_devices(40_001);
    assert_eq!(expired, vec!["fp-phone".to_string()]);
    assert!(s.devices().is_empty());
    assert!(!s.get_device(&"fp-phone".to_string()).unwrap().available);
    assert!(s.expire_devices(90_000).is_empty());
}

#[test]
fn pushed_ticket_is_pending_unless_auto_accepted() {
    let mut s = NearbyState::new(info("Phone", "fp-phone"), DEFAULT_NEARBY_PORT);
    let req = TicketRequest { info: info("Laptop", "fp-laptop"), ticket: "blobabc".to_string(), message: None };
    let (event, resp) = s.handle_ticket(req, 7);
    assert!(!resp.accepted);
    assert_eq!(resp.message.as_deref(), Some("Ticket pending approval"));
    match event {
        NearbyEvent::TicketReceived { from, ticket, message } => {
            assert_eq!(from.alias, "Laptop");
            assert_eq!(from.ip, "");
            assert_eq!(from.pending_ticket.as_deref(), Some("blobabc"));
            assert_eq!(ticket, "blobabc");
            assert!(message.is_none());
        }
        _ => panic!("expected a ticket event"),
    }
    s.auto_accept = true;
    let req2 = TicketRequest { info: info("Laptop", "fp-laptop"), ticket: "blobdef".to_string(), message: Some("hi".to_string()) };
    let (_, resp2) = s.handle_ticket(req2, 9);
    assert!(resp2.accepted);
    assert_eq!(resp2.message.as_deref(), Some("Ticket accepted"));
    let d = s.get_device(&"fp-laptop".to_string()).unwrap();
    assert_eq!(d.pending_ticket.as_deref(), Some("blobdef"));
    assert_eq!(d.last_seen, 9);
    assert_eq!(s.devices().len(), 1);
}

#[test]
fn announcement_describes_this_device() {
    let s = NearbyState::new(info("Laptop", "fp-laptop"), 1234);
    let m = s.announcement(true);
    assert_eq!(m.alias, "Laptop");
    assert_eq!(m.port, 1234);
    assert!(m.announce);
    assert_eq!(m.device_model.as_deref(), Some("Linux"));
    assert_eq!(DeviceType::default(), DeviceType::Desktop);
}

#[test]
fn lan_handoff_between_two_devices() {
    let mut laptop = NearbyState::new(info("Laptop", "fp-laptop"), DEFAULT_NEARBY_PORT);
    let mut phone = NearbyState::new(info("Phone", "fp-phone"), DEFAULT_NEARBY_PORT);
    laptop.server_running = true;
    phone.server_running = true;
    let hello = laptop.announcement(true);
    let out = phone.handle_multicast_message(hello, "192.168.1.10".to_string(), 1_000);
    let reply = out.reply.unwrap();
    let back = laptop.handle_multicast_message(reply, "192.168.1.11".to_string(), 1_100);
    assert!(back.reply.is_none());
    let seen_by_laptop = laptop.devices();
    assert_eq!(seen_by_laptop.len(), 1);
    assert_eq!(seen_by_laptop[0].alias, "Phone");
    let seen_by_phone = phone.devices();
    assert_eq!(seen_by_phone.len(), 1);
    assert_eq!(seen_by_phone[0].alias, "Laptop");
    let request = TicketRequest {
        info: DeviceInfo {
            alias: "Laptop".to_string(),
            version: "1.0".to_string(),
            device_model: None,
            device_type: DeviceType::Desktop,
            fingerprint: "fp-laptop".to_string(),
            download: false,
        },
        ticket: "blobxyz".to_string(),
        message: None,
    };
    let (event, _) = phone.handle_ticket(request, 1_500);
    match event {
        NearbyEvent::TicketReceived { from, ticket, .. } => {
            assert_eq!(from.alias, "Laptop");
            assert_eq!(from.ip, "192.168.1.10");
            assert_eq!(ticket, "blobxyz");
        }
        _ => panic!("expected a ticket event"),
    }
}

#[test]
fn each_expired_device_is_reported_once() {
    let mut s = NearbyState::new(info("Laptop", "fp-laptop"), DEFAULT_NEARBY_PORT);
    s.handle_multicast_message(announce("Phone", "fp-phone", false), "10.0.0.2".to_string(), 0);
    s.handle_multicast_message(announce("Tablet", "fp-tablet", false), "10.0.0.3".to_string(), 0);
    s.handle_multicast_message(announce("Phone", "fp-phone", false), "10.0.0.2".to_string(), 5);
    let expired = s.expire_devices(60_000);
    assert_eq!(expired, vec!["fp-phone".to_string(), "fp-tablet".to_string()]);
    assert!(s.expire_devices(61_000).is_empty());
}
