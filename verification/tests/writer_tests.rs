use drfish::serial_monitor::SerialLogMonitorWriteProxy;
use drfish::writer::{byte_of_key, offered, Key, Routed, Writer};
use tokio::sync::mpsc::{unbounded_channel, UnboundedReceiver};

fn proxy() -> (SerialLogMonitorWriteProxy, UnboundedReceiver<u8>) {
    let (sender, receiver) = unbounded_channel::<u8>();
    (SerialLogMonitorWriteProxy::new(sender), receiver)
}

#[test]
fn router_without_destinations_has_nothing_to_switch() {
    let mut writer = Writer::new();
    assert_eq!(writer.get_current_writer_name(), None);
    for _ in 0..5 {
        assert_eq!(writer.switch_to_next_writer(), None);
        assert_eq!(writer.get_current_writer_name(), None);
    }
    assert_eq!(writer.write_key(Key::Char('a')), Routed::Nothing);
}

#[test]
fn router_with_one_destination_stays_on_it() {
    let mut writer = Writer::new();
    let (a, mut rx_a) = proxy();
    writer.add_write_proxy("A".to_string(), a);
    assert_eq!(writer.get_current_writer_name(), Some("A".to_string()));
    for _ in 0..5 {
        assert_eq!(writer.switch_to_next_writer(), None);
        assert_eq!(writer.get_current_writer_name(), Some("A".to_string()));
    }
    assert_eq!(writer.write_key(Key::Char('a')), Routed::Delivered(b'a'));
    assert_eq!(rx_a.try_recv().ok(), Some(b'a'));
}

#[test]
fn router_with_three_destinations_goes_round() {
    let mut writer = Writer::new();
    let (a, _rx_a) = proxy();
    let (b, _rx_b) = proxy();
    let (c, _rx_c) = proxy();
    writer.add_write_proxy("A".to_string(), a);
    writer.add_write_proxy("B".to_string(), b);
    writer.add_write_proxy("C".to_string(), c);
    assert_eq!(writer.get_current_writer_name(), Some("A".to_string()));
    let expected = ["B", "C", "A", "B", "C", "A", "B"];
    for name in expected {
        assert_eq!(writer.switch_to_next_writer(), Some(name.to_string()));
        assert_eq!(writer.get_current_writer_name(), Some(name.to_string()));
    }
}

#[test]
fn first_registration_becomes_active_and_stays() {
    let mut writer = Writer::new();
    let (a, mut rx_a) = proxy();
    let (b, mut rx_b) = proxy();
    writer.add_write_proxy("A".to_string(), a);
    writer.add_write_proxy("B".to_string(), b);
    assert_eq!(writer.get_current_writer_name(), Some("A".to_string()));
    assert_eq!(writer.write_key(Key::Char('x')), Routed::Delivered(b'x'));
    assert_eq!(rx_a.try_recv().ok(), Some(b'x'));
    assert!(rx_b.try_recv().is_err());
    assert_eq!(writer.switch_to_next_writer(), Some("B".to_string()));
    assert_eq!(writer.write_key(Key::Char('y')), Routed::Delivered(b'y'));
    assert_eq!(rx_b.try_recv().ok(), Some(b'y'));
    assert!(rx_a.try_recv().is_err());
}

#[test]
fn registering_a_name_again_keeps_its_place() {
    let mut writer = Writer::new();
    let (a, mut rx_a) = proxy();
    let (b, _rx_b) = proxy();
    let (a2, mut rx_a2) = proxy();
    writer.add_write_proxy("A".to_string(), a);
    writer.add_write_proxy("B".to_string(), b);
    writer.add_write_proxy("A".to_string(), a2);
    assert_eq!(writer.get_current_writer_name(), Some("A".to_string()));
    assert_eq!(writer.write_key(Key::Char('q')), Routed::Delivered(b'q'));
    assert_eq!(rx_a2.try_recv().ok(), Some(b'q'));
    assert!(rx_a.try_recv().is_err());
    assert_eq!(writer.switch_to_next_writer(), Some("B".to_string()));
    assert_eq!(writer.switch_to_next_writer(), Some("A".to_string()));
}

#[test]
fn key_bytes() {
    assert_eq!(byte_of_key(Key::Char('a')), Some(97));
    assert_eq!(byte_of_key(Key::Char('\r')), Some(13));
    assert_eq!(byte_of_key(Key::Char('\u{e9}')), Some(0xe9));
    assert_eq!(byte_of_key(Key::Char('\u{20ac}')), Some(0xac));
    assert_eq!(byte_of_key(Key::Ctrl('a')), Some(1));
    assert_eq!(byte_of_key(Key::Ctrl('c')), Some(3));
    assert_eq!(byte_of_key(Key::Ctrl('C')), Some(3));
    assert_eq!(byte_of_key(Key::Ctrl('z')), Some(26));
    assert_eq!(byte_of_key(Key::Ctrl('@')), Some(0));
    assert_eq!(byte_of_key(Key::Ctrl('[')), Some(27));
    assert_eq!(byte_of_key(Key::Ctrl('4')), None);
    assert_eq!(byte_of_key(Key::Ctrl(' ')), None);
    assert_eq!(byte_of_key(Key::Ctrl('\u{e9}')), Some(0xc9 - 64));
    assert_eq!(byte_of_key(Key::Other), None);
}

#[test]
fn control_key_uses_the_capital_of_its_letter() {
    let mut writer = Writer::new();
    let (a, mut rx_a) = proxy();
    writer.add_write_proxy("A".to_string(), a);
    assert_eq!(writer.write_key(Key::Ctrl('d')), Routed::Delivered(4));
    assert_eq!(rx_a.try_recv().ok(), Some(4));
    assert_eq!(writer.write_key(Key::Ctrl('5')), Routed::Nothing);
    assert_eq!(writer.write_key(Key::Other), Routed::Nothing);
    assert!(rx_a.try_recv().is_err());
}

#[test]
fn byte_for_a_session_that_is_gone_is_reported_lost() {
    let mut writer = Writer::new();
    let (a, rx_a) = proxy();
    writer.add_write_proxy("A".to_string(), a);
    drop(rx_a);
    assert_eq!(writer.write_key(Key::Char('a')), Routed::Refused(b'a'));
}

#[test]
fn proxy_queues_bytes_in_order() {
    let (a, mut rx_a) = proxy();
    assert!(a.send(1));
    assert!(a.send(2));
    assert!(a.send(3));
    assert_eq!(rx_a.try_recv().ok(), Some(1));
    assert_eq!(rx_a.try_recv().ok(), Some(2));
    assert_eq!(rx_a.try_recv().ok(), Some(3));
    drop(rx_a);
    assert!(!a.send(4));
}

#[test]
fn bytes_are_routed_to_the_active_destination_only() {
    let mut writer = Writer::new();
    assert_eq!(writer.route(9), Routed::Nothing);
    let (a, mut rx_a) = proxy();
    let (b, mut rx_b) = proxy();
    writer.add_write_proxy("A".to_string(), a);
    writer.add_write_proxy("B".to_string(), b);
    assert_eq!(writer.route(9), Routed::Delivered(9));
    assert_eq!(rx_a.try_recv().ok(), Some(9));
    assert!(rx_b.try_recv().is_err());
    drop(rx_a);
    assert_eq!(writer.route(10), Routed::Refused(10));
    assert_eq!(writer.switch_to_next_writer(), Some("B".to_string()));
    assert_eq!(writer.route(11), Routed::Delivered(11));
    assert_eq!(rx_b.try_recv().ok(), Some(11));
}

#[test]
fn offered_byte_is_delivered_or_refused() {
    assert_eq!(offered(65, true), Routed::Delivered(65));
    assert_eq!(offered(65, false), Routed::Refused(65));
}

#[test]
fn switching_keeps_each_name_with_its_proxy() {
    let mut writer = Writer::new();
    let (a, mut rx_a) = proxy();
    let (b, mut rx_b) = proxy();
    let (c, mut rx_c) = proxy();
    writer.add_write_proxy("A".to_string(), a);
    writer.add_write_proxy("B".to_string(), b);
    writer.add_write_proxy("C".to_string(), c);
    let mut round = 0;
    while round < 2 {
        assert_eq!(writer.get_current_writer_name(), Some("A".to_string()));
        assert_eq!(writer.route(1), Routed::Delivered(1));
        assert_eq!(writer.switch_to_next_writer(), Some("B".to_string()));
        assert_eq!(writer.route(2), Routed::Delivered(2));
        assert_eq!(writer.switch_to_next_writer(), Some("C".to_string()));
        assert_eq!(writer.write_key(Key::Char('c')), Routed::Delivered(b'c'));
        assert_eq!(writer.switch_to_next_writer(), Some("A".to_string()));
        assert_eq!(rx_a.try_recv().ok(), Some(1));
        assert!(rx_a.try_recv().is_err());
        assert_eq!(rx_b.try_recv().ok(), Some(2));
        assert!(rx_b.try_recv().is_err());
        assert_eq!(rx_c.try_recv().ok(), Some(b'c'));
        assert!(rx_c.try_recv().is_err());
        round += 1;
    }
}
