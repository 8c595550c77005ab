//! Offline backend and the pairing windows.

use std::collections::BTreeMap;

use thatsmatter_bridge::catalog::{
    AttributeValue, CommandKind, CommandRequest, DeviceType, Export, HaStateValue,
};
use thatsmatter_bridge::config::IpOctets;
use thatsmatter_bridge::matter::backend::clamp_pairing_timeout;
use thatsmatter_bridge::matter::commissioning::CommissioningMaterial;
use thatsmatter_bridge::matter::dev::{DevMatterBackend, WindowState};
use thatsmatter_bridge::matter::net_stack::ReuseUdpBind;
use thatsmatter_bridge::matter::pairing::pairing_material_for;
use thatsmatter_bridge::matter::pairing_window::{PairingWindow, WindowRequest};
use thatsmatter_bridge::matter::rs_matter_backend::{RsMatterBackend, StackReady};
use uuid::Uuid;

const NOW: u64 = 1_700_000_000;

const MATERIAL: CommissioningMaterial = CommissioningMaterial {
    passcode: 20_202_021,
    discriminator: 3840,
};

fn started() -> DevMatterBackend {
    let mut backend = DevMatterBackend::new(NOW, &MATERIAL);
    backend.start(NOW);
    backend
}

fn lamp(id: u128) -> Export {
    Export {
        export_id: id,
        name: "Lamp".into(),
        type_: DeviceType::Light,
        primary_entity_id: "light.lamp".into(),
        linked: BTreeMap::new(),
        area_id: None,
        enabled: true,
        endpoint_id: Some(1),
    }
}

fn state(entity: &str, value: &str) -> HaStateValue {
    HaStateValue {
        entity_id: entity.into(),
        state: value.into(),
        attributes: Vec::new(),
    }
}

#[test]
fn pairing_material_matches_stored_commissioning_data() {
    let material = CommissioningMaterial::load_or_generate(None);
    let mut backend = DevMatterBackend::new(NOW, &material);
    backend.start(NOW);
    let p = backend.pairing_info();
    assert!(!p.setup_code.is_empty());
    assert!(p.qr_payload.starts_with("MT:"));
    assert_eq!(p.discriminator, u32::from(material.discriminator));
    assert_eq!(p.passcode, material.passcode);
    assert!(backend.is_running());
    assert!(backend.pairing_open(NOW));
    assert_eq!(backend.commissioned_fabrics(), 0);
}

#[test]
fn pairing_window_open_close_and_clamp() {
    let mut backend = started();
    assert!(backend.pairing_open(NOW));

    backend.close_pairing_window();
    assert!(!backend.pairing_open(NOW));

    let (_, timeout) = backend.open_pairing_window(NOW, 60);
    assert!(backend.pairing_open(NOW));
    assert_eq!(timeout, 180);
    assert!(backend.pairing_open(NOW + 179));
    assert!(!backend.pairing_open(NOW + 180));
    backend.close_pairing_window();
    assert!(!backend.pairing_open(NOW));

    let (_, timeout) = backend.open_pairing_window(NOW, 300);
    assert!(backend.pairing_open(NOW));
    assert_eq!(timeout, 300);
}

#[test]
fn pairing_material_survives_restart_on_same_data_dir() {
    let stored = CommissioningMaterial::load_or_generate(None);
    let first = DevMatterBackend::new(NOW, &stored).pairing_info();
    let again = CommissioningMaterial::load_or_generate(Some(stored));
    let restarted = DevMatterBackend::new(NOW + 60, &again).pairing_info();
    assert_eq!(first, restarted);
}

#[test]
fn controller_on_off_enqueues_command() {
    let mut backend = started();
    let id = Uuid::new_v4().as_u128();
    backend.simulate_controller_on_off(id, true);
    let cmds = backend.take_commands();
    assert_eq!(cmds.len(), 1);
    assert_eq!(cmds[0].export_id, id);
    assert_eq!(cmds[0].on, Some(true));
}

#[test]
fn command_queue_drain() {
    let mut backend = started();
    let id = Uuid::new_v4().as_u128();
    backend.push_command(CommandRequest {
        export_id: id,
        kind: CommandKind::OnOff,
        on: Some(true),
        level: None,
        position: None,
    });
    let cmds = backend.take_commands();
    assert_eq!(cmds.len(), 1);
    assert_eq!(cmds[0].export_id, id);
    assert!(backend.take_commands().is_empty());
}

#[test]
fn commands_come_out_in_order() {
    let mut backend = started();
    for (id, on) in [(1, true), (2, false), (1, false)] {
        backend.simulate_controller_on_off(id, on);
    }
    let order: Vec<_> = backend.take_commands().iter().map(|c| (c.export_id, c.on)).collect();
    assert_eq!(order, vec![(1, Some(true)), (2, Some(false)), (1, Some(false))]);
}

#[test]
fn apply_state_counts_and_stores() {
    let mut backend = started();
    let id = Uuid::new_v4().as_u128();
    backend.set_exports(vec![lamp(id)]);
    let applied = backend.apply_state(id, &[state("light.lamp", "on")]);
    assert_eq!(applied, 1);
    assert_eq!(backend.entity_state("light.lamp").unwrap().state, "on");
}

#[test]
fn the_last_state_of_an_entity_counts() {
    let mut backend = started();
    backend.set_exports(vec![lamp(1)]);
    let bright = HaStateValue {
        attributes: vec![("brightness".into(), AttributeValue::Unsigned(128))],
        ..state("light.lamp", "on")
    };
    let pushed = [
        state("light.lamp", "off"),
        state("sensor.b", "50"),
        bright.clone(),
    ];
    assert_eq!(backend.apply_state(1, &pushed), 3);
    assert_eq!(backend.entity_state("light.lamp").unwrap(), bright);
    assert_eq!(backend.entity_state("sensor.b").unwrap().state, "50");
    assert!(backend.entity_state("light.other").is_none());
}

#[test]
fn states_of_an_unknown_export_are_dropped() {
    let mut backend = started();
    backend.set_exports(vec![lamp(1)]);
    assert_eq!(backend.apply_state(2, &[state("light.lamp", "on")]), 0);
    assert!(backend.entity_state("light.lamp").is_none());
}

#[test]
fn starting_opens_a_window_only_where_none_is_open() {
    let mut fresh = DevMatterBackend::new(NOW, &MATERIAL);
    assert!(!fresh.is_running());
    assert_eq!(fresh.start(NOW), None);
    assert!(fresh.is_running());

    let mut closed = DevMatterBackend::new(NOW, &MATERIAL);
    closed.close_pairing_window();
    assert_eq!(closed.start(NOW + 5), Some(2));
    assert!(closed.pairing_open(NOW + 904));
    assert!(!closed.pairing_open(NOW + 905));
}

#[test]
fn the_timeout_of_an_older_window_spares_the_newer_one() {
    let mut backend = started();
    let (first, _) = backend.open_pairing_window(NOW, 200);
    let (second, _) = backend.open_pairing_window(NOW + 10, 200);
    backend.pairing_timeout(first);
    assert!(backend.pairing_open(NOW + 11));
    backend.pairing_timeout(second);
    assert!(!backend.pairing_open(NOW + 11));
}

#[test]
fn window_numbers_wrap_and_deadlines_saturate() {
    let mut window = WindowState {
        deadline: 0,
        generation: u64::MAX,
    };
    assert_eq!(window.open(u64::MAX - 1, 900), 0);
    assert_eq!(window.deadline, u64::MAX);
    assert!(window.is_open(u64::MAX - 1));
    window.expire(u64::MAX);
    assert!(window.is_open(u64::MAX - 1));
    window.expire(0);
    assert!(!window.is_open(0));
}

#[test]
fn timeouts_are_clamped() {
    for (asked, given) in [(0, 180), (179, 180), (180, 180), (300, 300), (900, 900), (901, 900)] {
        assert_eq!(clamp_pairing_timeout(asked), given, "{asked}");
    }
    assert_eq!(clamp_pairing_timeout(u16::MAX), 900);
}

#[test]
fn a_window_is_open_at_startup_without_fabrics() {
    let fresh = PairingWindow::note_startup_commissioning_state(NOW, 0);
    assert!(fresh.pairing_open(NOW + 899));
    assert!(!fresh.pairing_open(NOW + 900));
    let paired = PairingWindow::note_startup_commissioning_state(NOW, 1);
    assert!(!paired.pairing_open(NOW));
    assert_eq!(paired.commissioned_fabrics(), 1);
}

#[test]
fn window_requests_go_through_the_stack() {
    let mut window = PairingWindow::note_startup_commissioning_state(NOW, 1);
    assert!(window.request_open_window(NOW, 300));
    assert!(!window.pairing_open(NOW));
    let request = window.take_request().unwrap();
    assert_eq!(request, WindowRequest::Open(300));
    assert_eq!(window.take_request(), None);

    window.request_tried(NOW, request, false);
    assert!(!window.pairing_open(NOW));
    window.request_tried(NOW, request, true);
    assert!(window.pairing_open(NOW + 299));
    assert!(!window.pairing_open(NOW + 300));

    // An open window is left alone.
    assert!(!window.request_open_window(NOW + 1, 900));
    assert_eq!(window.take_request(), None);

    window.request_close_window();
    let request = window.take_request().unwrap();
    assert_eq!(request, WindowRequest::Close);
    window.request_tried(NOW + 2, request, true);
    assert!(!window.pairing_open(NOW + 2));
}

#[test]
fn a_new_fabric_closes_the_window() {
    let mut window = PairingWindow::note_startup_commissioning_state(NOW, 0);
    window.note_fabrics(0);
    assert!(window.pairing_open(NOW));
    window.note_fabrics(1);
    assert!(!window.pairing_open(NOW));
    assert_eq!(window.commissioned_fabrics(), 1);

    let mut window = PairingWindow::note_startup_commissioning_state(NOW, 2);
    window.request_open_window(NOW, 300);
    let request = window.take_request().unwrap();
    window.request_tried(NOW, request, true);
    window.note_fabrics(1);
    assert!(window.pairing_open(NOW), "a removed fabric leaves it open");
}

#[test]
fn the_matter_stack_is_tracked_from_start_to_end() {
    let mut stack = RsMatterBackend::new(Some("  eth0 ".into()), MATERIAL);
    assert_eq!(stack.netifs.pin.as_deref(), Some("eth0"));
    assert_eq!(RsMatterBackend::new(Some(" \t".into()), MATERIAL).netifs.pin, None);
    assert!(stack.start_needed());

    let refused = stack.open_pairing_window(NOW, 300).unwrap_err();
    assert_eq!(refused, "Matter stack is not running");
    assert_eq!(stack.close_pairing_window().unwrap_err(), "Matter stack is not running");

    assert_eq!(
        stack.started(StackReady::Failed("no IPv6".into())).unwrap_err(),
        "Matter stack failed to start: no IPv6"
    );
    assert_eq!(stack.status_error().as_deref(), Some("no IPv6"));
    assert_eq!(
        stack.started(StackReady::TimedOut).unwrap_err(),
        "Matter stack start timed out"
    );
    assert_eq!(stack.status_error().as_deref(), Some("Matter stack start timed out"));
    assert!(!stack.is_running());

    let mut stack = RsMatterBackend::new(None, MATERIAL);
    assert_eq!(stack.pairing_info(), pairing_material_for(&MATERIAL));
    stack.starting();
    stack.started(StackReady::Ready).unwrap();
    assert!(stack.is_running() && !stack.start_needed());
    assert!(stack.open_pairing_window(NOW, 5).unwrap());
    let request = stack.window.take_request().unwrap();
    assert_eq!(request, WindowRequest::Open(180));
    stack.window.request_tried(NOW, request, true);
    assert!(!stack.open_pairing_window(NOW + 1, 300).unwrap());
    stack.close_pairing_window().unwrap();
    assert_eq!(stack.window.take_request(), Some(WindowRequest::Close));

    stack.stack_ended(Some("run: timeout".into()));
    assert!(!stack.is_running());
    assert_eq!(stack.status_error().as_deref(), Some("run: timeout"));
    stack.stack_ended(None);
    assert_eq!(stack.status_error().as_deref(), Some("run: timeout"));
}

#[test]
fn udp_sockets_share_their_port() {
    let v4 = ReuseUdpBind.options(&IpOctets::V4([0, 0, 0, 0]));
    let v6 = ReuseUdpBind.options(&IpOctets::V6([0; 16]));
    for options in [v4, v6] {
        assert!(options.reuse_address && options.reuse_port);
        assert!(options.nonblocking && options.broadcast);
    }
    assert_eq!((v4.ipv6, v4.only_v6), (false, None));
    assert_eq!((v6.ipv6, v6.only_v6), (true, Some(false)));
}

#[test]
fn a_stack_that_ended_before_it_was_noted_as_ready_does_not_run() {
    let mut stack = RsMatterBackend::new(None, MATERIAL);
    stack.starting();
    stack.stack_ended(Some("run: no network".into()));
    stack.started(StackReady::Ready).unwrap();
    assert!(!stack.is_running());
    assert_eq!(stack.status_error().as_deref(), Some("run: no network"));

    stack.starting();
    stack.started(StackReady::Ready).unwrap();
    assert!(stack.is_running());
}

#[test]
fn a_window_of_no_seconds_never_opens() {
    let mut window = PairingWindow::note_startup_commissioning_state(NOW, 1);
    window.request_tried(NOW, WindowRequest::Open(0), true);
    assert!(!window.pairing_open(NOW));
    window.request_tried(u64::MAX - 900, WindowRequest::Open(900), true);
    assert!(window.pairing_open(u64::MAX - 1));
    assert!(!window.pairing_open(u64::MAX));
}
