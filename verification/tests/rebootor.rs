use teensy4_selfrebootor::channel::{CommandChannel, PullOutcome, UsbState};
use teensy4_selfrebootor::command::is_reboot_command;
use teensy4_selfrebootor::config;

/// Drives the state machine over a sequence of observed device states and
/// returns how many steps asked for the one-time bus configure action.
fn count_configure_fires(channel: &mut CommandChannel, observations: &[UsbState]) -> usize {
    let mut fires: usize = 0;
    for &observed in observations {
        let actions = channel.poll_state(observed);
        if actions.configure_bus {
            fires += 1;
        }
    }
    fires
}

#[test]
fn reboot_bytes_of_full_length_match() {
    let buf = *b"reboot";
    assert!(is_reboot_command(&buf, 6));
}

#[test]
fn wrong_byte_never_matches() {
    let buf = *b"reboox";
    assert!(!is_reboot_command(&buf, 6));
}

#[test]
fn wrong_first_byte_never_matches() {
    let buf = *b"xeboot";
    assert!(!is_reboot_command(&buf, 6));
}

#[test]
fn short_length_never_matches() {
    let buf = *b"reboot";
    assert!(!is_reboot_command(&buf, 5));
}

#[test]
fn zero_length_never_matches() {
    let buf = *b"reboot";
    assert!(!is_reboot_command(&buf, 0));
}

#[test]
fn fresh_channel_is_not_configured() {
    let channel = CommandChannel::new();
    assert!(!channel.is_configured());
}

#[test]
fn configure_fires_once_on_single_enumeration() {
    let mut channel = CommandChannel::new();
    let states = [
        UsbState::NotConfigured,
        UsbState::NotConfigured,
        UsbState::Configured,
        UsbState::Configured,
        UsbState::Configured,
    ];
    assert_eq!(count_configure_fires(&mut channel, &states), 1);
    assert!(channel.is_configured());
}

#[test]
fn configure_never_fires_while_never_configured() {
    let mut channel = CommandChannel::new();
    let states = [UsbState::NotConfigured; 8];
    assert_eq!(count_configure_fires(&mut channel, &states), 0);
    assert!(!channel.is_configured());
}

#[test]
fn configure_fires_once_per_entry_edge() {
    let mut channel = CommandChannel::new();
    let states = [
        UsbState::Configured,
        UsbState::Configured,
        UsbState::NotConfigured,
        UsbState::Configured,
        UsbState::Configured,
    ];
    assert_eq!(count_configure_fires(&mut channel, &states), 2);
}

#[test]
fn no_pull_requested_while_not_configured() {
    let mut channel = CommandChannel::new();
    let actions = channel.poll_state(UsbState::NotConfigured);
    assert!(!actions.pull_report);
    let actions = channel.poll_state(UsbState::NotConfigured);
    assert!(!actions.pull_report);
}

#[test]
fn pull_requested_exactly_while_configured() {
    let mut channel = CommandChannel::new();
    assert!(channel.poll_state(UsbState::Configured).pull_report);
    assert!(!channel.poll_state(UsbState::NotConfigured).pull_report);
    assert!(channel.poll_state(UsbState::Configured).pull_report);
}

#[test]
fn would_block_decides_nothing_and_keeps_state() {
    let mut channel = CommandChannel::new();
    channel.poll_state(UsbState::Configured);
    let buf = *b"reboot";
    assert!(!channel.handle_report(PullOutcome::WouldBlock, &buf));
    assert!(channel.is_configured());
}

#[test]
fn transport_error_is_swallowed() {
    let mut channel = CommandChannel::new();
    channel.poll_state(UsbState::Configured);
    let buf = *b"reboot";
    assert!(!channel.handle_report(PullOutcome::Failed, &buf));
    assert!(channel.is_configured());
}

#[test]
fn enumerated_device_reboots_on_command() {
    let mut channel = CommandChannel::new();
    let mut reboots: usize = 0;
    // Enumeration completes, then the host sends 72 65 62 6F 6F 74 once.
    let polls: [(UsbState, PullOutcome); 4] = [
        (UsbState::NotConfigured, PullOutcome::WouldBlock),
        (UsbState::Configured, PullOutcome::WouldBlock),
        (UsbState::Configured, PullOutcome::Received(6)),
        (UsbState::Configured, PullOutcome::WouldBlock),
    ];
    for (observed, outcome) in polls {
        let actions = channel.poll_state(observed);
        if actions.pull_report {
            let buf = *b"reboot";
            if channel.handle_report(outcome, &buf) {
                reboots += 1;
            }
        }
    }
    assert_eq!(reboots, 1);
}

#[test]
fn wrong_command_leaves_channel_configured() {
    let mut channel = CommandChannel::new();
    channel.poll_state(UsbState::Configured);
    let buf = *b"reboox";
    assert!(!channel.handle_report(PullOutcome::Received(6), &buf));
    assert!(channel.is_configured());
    // The next correct report still goes through.
    let buf = *b"reboot";
    assert!(channel.handle_report(PullOutcome::Received(6), &buf));
}

#[test]
fn command_before_enumeration_is_dropped() {
    let channel = CommandChannel::new();
    let buf = *b"reboot";
    assert!(!channel.handle_report(PullOutcome::Received(6), &buf));
}

#[test]
fn short_report_while_configured_is_ignored() {
    let mut channel = CommandChannel::new();
    channel.poll_state(UsbState::Configured);
    let buf = *b"reboot";
    assert!(!channel.handle_report(PullOutcome::Received(5), &buf));
}

#[test]
fn descriptor_identity_constants() {
    assert_eq!(config::VENDOR_ID, 0x16C0);
    assert_eq!(config::PRODUCT_ID, 0x0477);
    assert_eq!(config::MAX_PACKET_SIZE, 64);
    assert_eq!(config::POLL_INTERVAL, 10);
    assert_eq!(config::product_string(), "Self-Rebootor");
    assert_eq!(config::manufacturer_string(), "PJRC");
}
