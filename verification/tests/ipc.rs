//! Decisions of the control API, with the offline backend behind them.

use std::collections::BTreeMap;

use thatsmatter_bridge::catalog::{
    AttributeValue, CatalogError, CatalogStore, CommandKind, CommandRequest, CreateExport,
    DeviceType, HaStateUpdate, HaStateValue, PatchExport,
};
use thatsmatter_bridge::config::BackendKind;
use thatsmatter_bridge::ipc::handlers::{
    bad_request, catalog_err, close_pairing, create_export, delete_export, get_export, health,
    internal, list_exports, open_pairing, opened_pairing, parse_state_body, patch_export,
    push_state, pushed_state, status, synced, take_commands, OpenPairingBody, StateBody,
    STATUS_BAD_REQUEST, STATUS_CREATED, STATUS_INTERNAL_SERVER_ERROR, STATUS_NOT_FOUND, STATUS_OK,
};
use thatsmatter_bridge::ipc::types::{OpenPairingRequest, OpenPairingResponse};
use thatsmatter_bridge::matter::commissioning::CommissioningMaterial;
use thatsmatter_bridge::matter::dev::DevMatterBackend;

const NOW: u64 = 1_700_000_000;

fn test_app() -> (CatalogStore, DevMatterBackend) {
    let catalog = CatalogStore::new("/data".into(), "ThatsMatter".into());
    let material = CommissioningMaterial::load_or_generate(None);
    let mut backend = DevMatterBackend::new(NOW, &material);
    backend.start(NOW);
    (catalog, backend)
}

fn create(name: &str, type_: DeviceType, entity: &str) -> CreateExport {
    CreateExport {
        export_id: None,
        name: name.into(),
        type_,
        primary_entity_id: entity.into(),
        linked: BTreeMap::new(),
        area_id: None,
        enabled: true,
    }
}

fn single(value: HaStateValue) -> StateBody {
    StateBody {
        empty: false,
        update: None,
        single: Some(value),
    }
}

fn state(entity: &str, value: &str) -> HaStateValue {
    HaStateValue {
        entity_id: entity.into(),
        state: value.into(),
        attributes: Vec::new(),
    }
}

#[test]
fn health_and_status() {
    let (catalog, backend) = test_app();
    assert_eq!(STATUS_OK, 200);
    let h = health(backend.is_running(), "0.2.4");
    assert_eq!(h.ok, true);
    assert!(!h.version.is_empty());

    let s = status(
        &catalog,
        BackendKind::Dev,
        backend.is_running(),
        backend.pairing_open(NOW),
        backend.commissioned_fabrics(),
        None,
    );
    assert_eq!(s.bridge_name, "ThatsMatter");
    assert_eq!(s.running, true);
    assert_eq!(s.matter_backend, "dev");
    assert_eq!(s.export_count, 0);
    assert_eq!(s.pairing_open, true);
}

#[test]
fn status_counts_exports_and_passes_the_error_on() {
    let (mut catalog, _) = test_app();
    create_export(&mut catalog, create("A", DeviceType::Light, "light.a")).unwrap();
    let mut disabled = create("B", DeviceType::Light, "light.b");
    disabled.enabled = false;
    create_export(&mut catalog, disabled).unwrap();
    let s = status(&catalog, BackendKind::RsMatter, false, false, 3, Some("stack died".into()));
    assert_eq!((s.export_count, s.enabled_export_count), (2, 1));
    assert_eq!(s.matter_backend, "rs_matter");
    assert_eq!(s.commissioned_fabrics, 3);
    assert_eq!(s.error.as_deref(), Some("stack died"));
    assert!(!health(false, "0.2.4").ok);
}

#[test]
fn export_crud_and_endpoint_stable() {
    let (mut catalog, _) = test_app();

    let mut body = create("Kitchen Lamp", DeviceType::Light, "light.kitchen");
    body.area_id = Some("kitchen".into());
    assert_eq!(STATUS_CREATED, 201);
    let created = create_export(&mut catalog, body).unwrap();
    assert_eq!(created.name, "Kitchen Lamp");
    assert!(created.endpoint_id.is_some());
    let export_id = created.export_id;
    let endpoint_id = created.endpoint_id;

    assert!(get_export(&catalog, export_id).is_ok());

    let patched = patch_export(
        &mut catalog,
        export_id,
        PatchExport {
            name: Some("Lamp".into()),
            enabled: Some(false),
            ..Default::default()
        },
    )
    .unwrap();
    assert_eq!(patched.name, "Lamp");
    assert!(!patched.enabled);
    assert_eq!(patched.endpoint_id, endpoint_id);
    // A patch without area_id leaves the area untouched.
    assert_eq!(patched.area_id.as_deref(), Some("kitchen"));

    // An explicit null clears area_id.
    let cleared = patch_export(
        &mut catalog,
        export_id,
        PatchExport {
            area_id: Some(None),
            ..Default::default()
        },
    )
    .unwrap();
    assert_eq!(cleared.area_id, None);

    assert_eq!(list_exports(&catalog).len(), 1);
    assert!(delete_export(&mut catalog, export_id).is_ok());
    assert!(list_exports(&catalog).is_empty());
}

#[test]
fn state_push_and_command_queue() {
    let (mut catalog, mut backend) = test_app();
    let created =
        create_export(&mut catalog, create("Plug", DeviceType::Outlet, "switch.plug")).unwrap();
    backend.set_exports(list_exports(&catalog));

    let states =
        push_state(&catalog, created.export_id, single(state("switch.plug", "on"))).unwrap();
    let applied = pushed_state(Ok(backend.apply_state(created.export_id, &states))).unwrap();
    assert_eq!(applied.applied, 1);
    assert_eq!(backend.entity_state("switch.plug").unwrap().state, "on");

    backend.push_command(CommandRequest {
        export_id: created.export_id,
        kind: CommandKind::OnOff,
        on: Some(false),
        level: None,
        position: None,
    });

    let pending = take_commands(backend.take_commands());
    assert_eq!(pending.commands.len(), 1);
    assert_eq!(pending.commands[0].kind, CommandKind::OnOff);
    assert_eq!(pending.commands[0].on, Some(false));

    // Queue drained.
    assert_eq!(take_commands(backend.take_commands()).commands.len(), 0);
}

#[test]
fn ha_state_push_and_controller_command_roundtrip() {
    let (mut catalog, mut backend) = test_app();
    let export_id = 0xaaaaaaaa_bbbb_4ccc_8ddd_eeeeeeeeeeee;
    let mut body = create("Desk Lamp", DeviceType::Light, "light.desk");
    body.export_id = Some(export_id);
    let created = create_export(&mut catalog, body).unwrap();
    assert_eq!(created.export_id, export_id);
    assert!(created.endpoint_id.unwrap() >= 1);
    backend.set_exports(list_exports(&catalog));

    let pushed = HaStateValue {
        entity_id: "light.desk".into(),
        state: "on".into(),
        attributes: vec![("brightness".into(), AttributeValue::Unsigned(128))],
    };
    let states = push_state(&catalog, export_id, single(pushed)).unwrap();
    let applied = pushed_state(Ok(backend.apply_state(export_id, &states))).unwrap();
    assert_eq!(applied.applied, 1);

    backend.simulate_controller_on_off(export_id, false);
    let cmds = take_commands(backend.take_commands()).commands;
    assert_eq!(cmds.len(), 1);
    assert_eq!(cmds[0].export_id, export_id);
    assert_eq!(cmds[0].kind, CommandKind::OnOff);
    assert_eq!(cmds[0].on, Some(false));

    assert_eq!(take_commands(backend.take_commands()).commands.len(), 0);
}

#[test]
fn pairing_returns_placeholders() {
    let (_, backend) = test_app();
    let p = backend.pairing_info();
    assert!(!p.setup_code.is_empty());
    assert!(!p.qr_payload.is_empty());
    assert!(p.discriminator <= 4095);
    assert!(p.passcode > 0);
}

#[test]
fn missing_export_is_404() {
    let (catalog, _) = test_app();
    let refusal = get_export(&catalog, 0).unwrap_err();
    assert_eq!(refusal.status, STATUS_NOT_FOUND);
    assert_eq!(refusal.status, 404);
    assert_eq!(refusal.body.error, "not_found");
    assert_eq!(
        refusal.body.message,
        "export not found: 00000000-0000-0000-0000-000000000000"
    );
}

#[test]
fn catalog_errors_are_answered_by_kind() {
    let (mut catalog, _) = test_app();
    let refusal =
        create_export(&mut catalog, create("", DeviceType::Light, "light.a")).unwrap_err();
    assert_eq!(refusal.status, STATUS_BAD_REQUEST);
    assert_eq!(refusal.body.error, "invalid");
    assert_eq!(refusal.body.message, "name must be 1..=64 characters");

    let refusal = patch_export(&mut catalog, 5, PatchExport::default()).unwrap_err();
    assert_eq!(refusal.status, STATUS_NOT_FOUND);
    let refusal = delete_export(&mut catalog, 5).unwrap_err();
    assert_eq!(refusal.status, STATUS_NOT_FOUND);

    for (err, message) in [
        (CatalogError::EndpointExhausted, "endpoint id space exhausted"),
        (CatalogError::Io("disk full".into()), "io: disk full"),
        (CatalogError::Json("eof".into()), "json: eof"),
    ] {
        let refusal = catalog_err(err);
        assert_eq!(refusal.status, STATUS_INTERNAL_SERVER_ERROR);
        assert_eq!(refusal.body.error, "internal");
        assert_eq!(refusal.body.message, message);
    }
    assert_eq!(internal("boom".into()).status, 500);
    assert_eq!(bad_request("huh".into()).status, 400);
}

#[test]
fn a_pairing_window_opens_for_the_clamped_timeout() {
    assert_eq!(open_pairing(OpenPairingBody::Empty).unwrap(), 300);
    let parsed = |timeout_secs| OpenPairingBody::Parsed(OpenPairingRequest { timeout_secs });
    assert_eq!(open_pairing(parsed(60)).unwrap(), 180);
    assert_eq!(open_pairing(parsed(240)).unwrap(), 240);
    assert_eq!(open_pairing(parsed(5000)).unwrap(), 900);
    assert_eq!(OpenPairingRequest::default().timeout_secs, 300);

    let refusal = open_pairing(OpenPairingBody::Malformed("expected value".into())).unwrap_err();
    assert_eq!(refusal.status, 400);
    assert_eq!(refusal.body.error, "invalid");
    assert_eq!(refusal.body.message, "invalid open pairing body: expected value");

    assert_eq!(
        opened_pairing(240, Ok(())).unwrap(),
        OpenPairingResponse {
            pairing_open: true,
            timeout_secs: 240,
        }
    );
    assert_eq!(opened_pairing(240, Err("no stack".into())).unwrap_err().body.message, "no stack");
    assert!(!close_pairing(Ok(())).unwrap().pairing_open);
    assert_eq!(close_pairing(Err("no stack".into())).unwrap_err().status, 500);
}

#[test]
fn a_state_body_is_an_update_or_a_single_state() {
    let both = StateBody {
        empty: false,
        update: Some(HaStateUpdate {
            states: vec![state("light.a", "on"), state("light.b", "off")],
        }),
        single: Some(state("light.c", "on")),
    };
    assert_eq!(parse_state_body(both).unwrap().len(), 2);
    assert_eq!(
        parse_state_body(single(state("light.c", "on"))).unwrap(),
        vec![state("light.c", "on")]
    );
    let unreadable = || StateBody {
        empty: false,
        update: None,
        single: None,
    };
    assert_eq!(
        parse_state_body(unreadable()).unwrap_err(),
        "body must be HaStateUpdate or HaStateValue JSON"
    );
    let empty = || StateBody {
        empty: true,
        update: None,
        single: None,
    };
    assert_eq!(parse_state_body(empty()).unwrap_err(), "empty body");

    let (mut catalog, _) = test_app();
    assert_eq!(push_state(&catalog, 1, empty()).unwrap_err().status, 404);
    let mut body = create("A", DeviceType::Light, "light.a");
    body.export_id = Some(1);
    create_export(&mut catalog, body).unwrap();
    assert_eq!(push_state(&catalog, 1, empty()).unwrap_err().body.message, "empty body");
    assert_eq!(push_state(&catalog, 1, unreadable()).unwrap_err().status, 400);
}

#[test]
fn a_backend_failure_is_an_internal_error() {
    let (mut catalog, _) = test_app();
    let created =
        create_export(&mut catalog, create("A", DeviceType::Light, "light.a")).unwrap();
    let same = created.clone();
    assert_eq!(synced(created, Ok(())).unwrap(), same);
    let refusal = synced(same, Err("stack died".into())).unwrap_err();
    assert_eq!((refusal.status, refusal.body.message.as_str()), (500, "stack died"));
    assert_eq!(pushed_state(Err("stack died".into())).unwrap_err().status, 500);
}
