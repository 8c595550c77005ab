//! Catalog store: endpoint assignment, requests, and saving and loading.

use std::collections::BTreeMap;

use thatsmatter_bridge::catalog::{
    CatalogError, CatalogSnapshot, CatalogStore, CreateExport, DeviceType, Export, PatchExport,
    PersistedConfig, PersistedExports,
};
use uuid::Uuid;

const ID_A: u128 = 0x11111111_1111_4111_8111_111111111111;
const ID_B: u128 = 0x22222222_2222_4222_8222_222222222222;

fn store() -> CatalogStore {
    CatalogStore::new("/data".into(), "ThatsMatter".into())
}

fn sample_create(name: &str, entity: &str) -> CreateExport {
    CreateExport {
        export_id: None,
        name: name.into(),
        type_: DeviceType::Light,
        primary_entity_id: entity.into(),
        linked: BTreeMap::new(),
        area_id: None,
        enabled: true,
    }
}

fn create_as(id: u128, name: &str) -> CreateExport {
    CreateExport {
        export_id: Some(id),
        ..sample_create(name, "light.x")
    }
}

fn stored(id: u128, name: &str, endpoint_id: Option<u16>) -> Export {
    Export {
        export_id: id,
        name: name.into(),
        type_: DeviceType::Light,
        primary_entity_id: "light.x".into(),
        linked: BTreeMap::new(),
        area_id: None,
        enabled: true,
        endpoint_id,
    }
}

fn reload(store: &CatalogStore) -> CatalogStore {
    let (config, exports) = store.persisted();
    CatalogStore::load_or_new("/data".into(), "Other".into(), Some(config), Some(exports)).unwrap()
}

#[test]
fn create_assigns_stable_endpoint_and_persists() {
    let mut store = store();
    let a = store.create(sample_create("A", "light.a")).unwrap();
    let b = store.create(sample_create("B", "light.b")).unwrap();
    assert!(a.endpoint_id.is_some());
    assert!(b.endpoint_id.is_some());
    assert_ne!(a.endpoint_id, b.endpoint_id);

    let reloaded = reload(&store);
    assert_eq!(reloaded.bridge_name(), "ThatsMatter");
    assert_eq!(reloaded.export_count(), 2);
    assert_eq!(reloaded.get(a.export_id).unwrap().endpoint_id, a.endpoint_id);
    assert_eq!(reloaded.get(b.export_id).unwrap().endpoint_id, b.endpoint_id);
}

#[test]
fn replace_preserves_endpoint_by_export_id() {
    let mut store = store();
    let out = store
        .replace(CatalogSnapshot {
            bridge_name: "Home".into(),
            exports: vec![
                Export {
                    primary_entity_id: "light.a".into(),
                    ..stored(ID_A, "A", None)
                },
                Export {
                    type_: DeviceType::Outlet,
                    primary_entity_id: "switch.b".into(),
                    ..stored(ID_B, "B", None)
                },
            ],
        })
        .unwrap();

    let ep_a = out.exports.iter().find(|e| e.export_id == ID_A).unwrap().endpoint_id;
    let ep_b = out.exports.iter().find(|e| e.export_id == ID_B).unwrap().endpoint_id;
    assert!(ep_a.is_some() && ep_b.is_some());
    assert_ne!(ep_a, ep_b);

    let out2 = store
        .replace(CatalogSnapshot {
            bridge_name: "Home".into(),
            exports: vec![Export {
                primary_entity_id: "light.a2".into(),
                area_id: Some("kitchen".into()),
                enabled: false,
                ..stored(ID_A, "A renamed", None)
            }],
        })
        .unwrap();
    assert_eq!(out2.exports.len(), 1);
    assert_eq!(out2.exports[0].endpoint_id, ep_a);
    assert_eq!(out2.exports[0].name, "A renamed");
    assert!(!out2.exports[0].enabled);
}

#[test]
fn replace_assigns_endpoint_ids_and_preserves_by_export_id() {
    let mut store = store();
    let snap = CatalogSnapshot {
        bridge_name: "Home".into(),
        exports: vec![
            Export {
                primary_entity_id: "light.a".into(),
                ..stored(ID_A, "A", None)
            },
            Export {
                type_: DeviceType::Outlet,
                primary_entity_id: "switch.b".into(),
                ..stored(ID_B, "B", None)
            },
        ],
    };

    let out = store.replace(snap).unwrap();
    assert_eq!(out.bridge_name, "Home");
    let ep_a = out.exports.iter().find(|e| e.export_id == ID_A).unwrap().endpoint_id;
    let ep_b = out.exports.iter().find(|e| e.export_id == ID_B).unwrap().endpoint_id;
    assert!(ep_a.is_some() && ep_b.is_some());
    assert_ne!(ep_a, ep_b);

    let snap2 = CatalogSnapshot {
        bridge_name: "Home".into(),
        exports: vec![Export {
            primary_entity_id: "light.a2".into(),
            area_id: Some("kitchen".into()),
            enabled: false,
            ..stored(ID_A, "A renamed", None)
        }],
    };
    let out2 = store.replace(snap2).unwrap();
    assert_eq!(out2.exports.len(), 1);
    assert_eq!(out2.exports[0].endpoint_id, ep_a);
    assert_eq!(out2.exports[0].name, "A renamed");
    assert!(!out2.exports[0].enabled);
}

#[test]
fn patch_and_delete_crud() {
    let mut store = store();
    let created = store.create(sample_create("Lamp", "light.lamp")).unwrap();
    let ep = created.endpoint_id;

    let patched = store
        .patch(
            created.export_id,
            PatchExport {
                name: Some("Kitchen Lamp".into()),
                enabled: Some(false),
                ..Default::default()
            },
        )
        .unwrap();
    assert_eq!(patched.name, "Kitchen Lamp");
    assert!(!patched.enabled);
    assert_eq!(patched.endpoint_id, ep);

    store.delete(created.export_id).unwrap();
    assert!(store.get(created.export_id).is_none());
}

#[test]
fn rejects_empty_name() {
    let mut store = store();
    let err = store
        .create(CreateExport {
            export_id: None,
            name: "".into(),
            type_: DeviceType::Contact,
            primary_entity_id: "binary_sensor.door".into(),
            linked: BTreeMap::new(),
            area_id: None,
            enabled: true,
        })
        .unwrap_err();
    assert!(matches!(err, CatalogError::Invalid(_)));
}

#[test]
fn endpoints_count_up_from_one() {
    let mut store = store();
    let eps: Vec<_> = (0..4)
        .map(|i| store.create(sample_create(&format!("L{i}"), "light.l")).unwrap().endpoint_id)
        .collect();
    assert_eq!(eps, vec![Some(1), Some(2), Some(3), Some(4)]);
}

#[test]
fn a_freed_endpoint_is_not_taken_again_before_the_wrap() {
    let mut store = store();
    store.create(create_as(1, "A")).unwrap();
    store.create(create_as(2, "B")).unwrap();
    store.delete(1).unwrap();
    assert_eq!(store.create(create_as(3, "C")).unwrap().endpoint_id, Some(3));
}

#[test]
fn assignment_wraps_past_the_last_id_and_skips_taken_ones() {
    let mut store = CatalogStore::load_or_new(
        "/data".into(),
        "Home".into(),
        Some(PersistedConfig {
            bridge_name: "Home".into(),
            next_endpoint: 65535,
        }),
        Some(PersistedExports {
            exports: vec![stored(10, "A", Some(1)), stored(11, "B", Some(2))],
        }),
    )
    .unwrap();
    assert_eq!(store.create(create_as(12, "C")).unwrap().endpoint_id, Some(65535));
    assert_eq!(store.create(create_as(13, "D")).unwrap().endpoint_id, Some(3));
}

#[test]
fn endpoint_ids_can_run_out() {
    let exports: Vec<Export> = (1..=65535u16).map(|ep| stored(ep.into(), "E", Some(ep))).collect();
    let mut store = CatalogStore::load_or_new(
        "/data".into(),
        "Home".into(),
        None,
        Some(PersistedExports { exports }),
    )
    .unwrap();
    assert_eq!(store.export_count(), 65535);
    let err = store.create(create_as(70000, "One more")).unwrap_err();
    assert_eq!(err, CatalogError::EndpointExhausted);
    assert_eq!(err.message(), "endpoint id space exhausted");
    assert!(store.get(70000).is_none());

    store.delete(40000).unwrap();
    assert_eq!(store.create(create_as(70000, "One more")).unwrap().endpoint_id, Some(40000));
}

#[test]
fn an_identity_can_be_used_once() {
    let mut store = store();
    store.create(create_as(ID_A, "A")).unwrap();
    let err = store.create(create_as(ID_A, "Again")).unwrap_err();
    assert_eq!(
        err,
        CatalogError::Invalid("export_id already exists: 11111111-1111-4111-8111-111111111111".into())
    );
    assert_eq!(
        err.message(),
        "invalid export: export_id already exists: 11111111-1111-4111-8111-111111111111"
    );
    assert_eq!(store.export_count(), 1);
    assert_eq!(store.get(ID_A).unwrap().name, "A");
    // A refused request uses up no endpoint id.
    assert_eq!(store.create(create_as(ID_B, "B")).unwrap().endpoint_id, Some(2));
}

#[test]
fn a_drawn_identity_is_a_random_uuid() {
    let mut store = store();
    let a = store.create(sample_create("A", "light.a")).unwrap().export_id;
    let b = store.create(sample_create("B", "light.b")).unwrap().export_id;
    assert_ne!(a, b);
    assert_eq!(Uuid::from_u128(a).get_version_num(), 4);
    assert_eq!(Uuid::from_u128(b).get_variant(), uuid::Variant::RFC4122);
}

#[test]
fn names_have_one_to_sixty_four_characters() {
    let mut store = store();
    let bad_name = CatalogError::Invalid("name must be 1..=64 characters".into());
    assert!(store.create(create_as(1, &"x".repeat(64))).is_ok());
    assert_eq!(store.create(create_as(2, &"x".repeat(65))).unwrap_err(), bad_name);
    assert!(store.create(create_as(3, &"é".repeat(64))).is_ok());
    assert_eq!(store.create(create_as(4, &"é".repeat(65))).unwrap_err(), bad_name);

    let mut no_entity = create_as(5, "A");
    no_entity.primary_entity_id = "".into();
    assert_eq!(
        store.create(no_entity).unwrap_err(),
        CatalogError::Invalid("primary_entity_id must be non-empty".into())
    );
}

#[test]
fn an_unknown_export_is_not_found() {
    let mut store = store();
    assert_eq!(store.delete(ID_A).unwrap_err(), CatalogError::NotFound(ID_A));
    let err = store.patch(ID_A, PatchExport::default()).unwrap_err();
    assert_eq!(err.message(), "export not found: 11111111-1111-4111-8111-111111111111");
    assert_eq!(CatalogError::Io("disk full".into()).message(), "io: disk full");
    assert_eq!(CatalogError::Json("eof".into()).message(), "json: eof");
}

#[test]
fn a_patch_changes_what_it_names() {
    let mut store = store();
    store
        .create(CreateExport {
            area_id: Some("kitchen".into()),
            ..create_as(ID_A, "A")
        })
        .unwrap();
    let before = store.get(ID_A).unwrap();

    assert_eq!(store.patch(ID_A, PatchExport::default()).unwrap(), before);

    let linked = BTreeMap::from([("battery".to_string(), "sensor.b".to_string())]);
    let after = store
        .patch(
            ID_A,
            PatchExport {
                type_: Some(DeviceType::Garage),
                primary_entity_id: Some("cover.g".into()),
                linked: Some(linked.clone()),
                area_id: Some(None),
                ..Default::default()
            },
        )
        .unwrap();
    assert_eq!(
        after,
        Export {
            type_: DeviceType::Garage,
            primary_entity_id: "cover.g".into(),
            linked,
            area_id: None,
            ..before
        }
    );
    assert_eq!(store.get(ID_A).unwrap(), after);
}

#[test]
fn a_refused_patch_keeps_the_endpoint() {
    let mut store = store();
    let before = store.create(create_as(ID_A, "A")).unwrap();

    let err = store
        .patch(
            ID_A,
            PatchExport {
                name: Some("".into()),
                enabled: Some(false),
                ..Default::default()
            },
        )
        .unwrap_err();
    assert_eq!(err, CatalogError::Invalid("name must be 1..=64 characters".into()));
    assert_eq!(store.get(ID_A).unwrap(), before);

    let err = store
        .patch(
            ID_A,
            PatchExport {
                name: Some("New".into()),
                primary_entity_id: Some("".into()),
                enabled: Some(false),
                ..Default::default()
            },
        )
        .unwrap_err();
    assert_eq!(err, CatalogError::Invalid("primary_entity_id must be non-empty".into()));
    let after = store.get(ID_A).unwrap();
    assert_eq!(after.name, "New");
    assert!(after.enabled);
    assert_eq!(after.endpoint_id, before.endpoint_id);
}

#[test]
fn listings_are_ordered_by_identity() {
    let mut store = store();
    for id in [30u128, 10, 20] {
        store.create(create_as(id, "E")).unwrap();
    }
    store
        .patch(
            20,
            PatchExport {
                enabled: Some(false),
                ..Default::default()
            },
        )
        .unwrap();
    let ids: Vec<u128> = store.list().iter().map(|e| e.export_id).collect();
    assert_eq!(ids, vec![10, 20, 30]);
    assert_eq!(store.snapshot().exports, store.list());
    assert_eq!(store.snapshot().bridge_name, "ThatsMatter");
    assert_eq!(store.export_count(), 3);
    assert_eq!(store.enabled_export_count(), 2);
    assert_eq!(store.data_dir(), "/data");
}

#[test]
fn the_bridge_name_has_one_to_thirty_two_characters() {
    let mut store = store();
    let bad = CatalogError::Invalid("bridge_name must be 1..=32 characters".into());
    assert_eq!(store.set_bridge_name("".into()).unwrap_err(), bad);
    assert_eq!(store.set_bridge_name("x".repeat(33)).unwrap_err(), bad);
    assert_eq!(store.bridge_name(), "ThatsMatter");
    store.set_bridge_name("ö".repeat(32)).unwrap();
    assert_eq!(store.bridge_name(), "ö".repeat(32));

    let err = store
        .replace(CatalogSnapshot {
            bridge_name: "".into(),
            exports: vec![],
        })
        .unwrap_err();
    assert_eq!(err, bad);
}

#[test]
fn a_failed_replacement_keeps_the_exports() {
    let mut store = store();
    store.create(create_as(ID_A, "A")).unwrap();
    let err = store
        .replace(CatalogSnapshot {
            bridge_name: "Home".into(),
            exports: vec![stored(ID_B, "B", None), stored(3, "", None)],
        })
        .unwrap_err();
    assert_eq!(err, CatalogError::Invalid("name must be 1..=64 characters".into()));
    assert_eq!(store.export_count(), 1);
    assert_eq!(store.get(ID_A).unwrap().endpoint_id, Some(1));
    // The name and the endpoint id that the first export was given are gone.
    assert_eq!(store.bridge_name(), "Home");
    assert_eq!(store.create(create_as(4, "C")).unwrap().endpoint_id, Some(3));
}

#[test]
fn a_replacement_keeps_known_ids_and_gives_new_exports_distinct_ones() {
    let mut store = store();
    store.create(create_as(1, "A")).unwrap();
    store.create(create_as(2, "B")).unwrap();
    let out = store
        .replace(CatalogSnapshot {
            bridge_name: "Home".into(),
            exports: vec![
                stored(5, "New", None),
                stored(2, "B", Some(77)),
                stored(4, "Brings its own", Some(40)),
                stored(3, "Newer", None),
            ],
        })
        .unwrap();
    let eps: Vec<_> = out.exports.iter().map(|e| (e.export_id, e.endpoint_id)).collect();
    assert_eq!(eps, vec![(2, Some(2)), (3, Some(4)), (4, Some(40)), (5, Some(3))]);
}

#[test]
fn an_empty_data_directory_gives_an_empty_catalog() {
    let mut store =
        CatalogStore::load_or_new("/data".into(), "Fallback".into(), None, None).unwrap();
    assert_eq!(store.bridge_name(), "Fallback");
    assert_eq!(store.export_count(), 0);
    assert_eq!(store.create(create_as(1, "A")).unwrap().endpoint_id, Some(1));
}

#[test]
fn loading_assigns_missing_ids_past_the_stored_ones() {
    let store = CatalogStore::load_or_new(
        "/data".into(),
        "Fallback".into(),
        Some(PersistedConfig {
            bridge_name: "Home".into(),
            next_endpoint: 0,
        }),
        Some(PersistedExports {
            exports: vec![
                stored(1, "A", None),
                stored(2, "B", Some(7)),
                stored(3, "C", None),
            ],
        }),
    )
    .unwrap();
    assert_eq!(store.bridge_name(), "Home");
    let eps: Vec<_> = store.list().iter().map(|e| e.endpoint_id).collect();
    assert_eq!(eps, vec![Some(8), Some(7), Some(9)]);
}

#[test]
fn loading_keeps_the_later_of_two_exports_with_one_identity() {
    let store = CatalogStore::load_or_new(
        "/data".into(),
        "Home".into(),
        None,
        Some(PersistedExports {
            exports: vec![stored(1, "First", Some(3)), stored(1, "Second", Some(5))],
        }),
    )
    .unwrap();
    assert_eq!(store.export_count(), 1);
    assert_eq!(store.get(1).unwrap().name, "Second");
    assert_eq!(store.get(1).unwrap().endpoint_id, Some(5));
}

#[test]
fn loading_fails_where_no_id_is_left() {
    let mut exports: Vec<Export> =
        (1..=65535u16).map(|ep| stored(ep.into(), "E", Some(ep))).collect();
    exports.push(stored(70000, "No id", None));
    let err = CatalogStore::load_or_new(
        "/data".into(),
        "Home".into(),
        None,
        Some(PersistedExports { exports }),
    )
    .unwrap_err();
    assert_eq!(err, CatalogError::EndpointExhausted);
}

#[test]
fn what_was_saved_loads_back() {
    let mut store = store();
    store.create(create_as(ID_B, "B")).unwrap();
    store.create(create_as(ID_A, "A")).unwrap();
    store.delete(ID_B).unwrap();
    let again = reload(&store);
    assert_eq!(again.list(), store.list());
    assert_eq!(again.bridge_name(), "ThatsMatter");
    assert_eq!(again.persisted().0.next_endpoint, 3);
}

fn endpoints_after_replacing(store: &mut CatalogStore, exports: Vec<Export>) -> Vec<(u128, u16)> {
    let out = store
        .replace(CatalogSnapshot {
            bridge_name: "Home".into(),
            exports,
        })
        .unwrap();
    out.exports.iter().map(|e| (e.export_id, e.endpoint_id.unwrap())).collect()
}

#[test]
fn a_replacement_never_assigns_an_id_that_was_brought() {
    let eps = endpoints_after_replacing(
        &mut store(),
        vec![stored(1, "Brings one", Some(1)), stored(2, "Brings none", None)],
    );
    assert_eq!(eps, vec![(1, 1), (2, 2)]);
}

#[test]
fn a_brought_id_is_kept_only_where_it_is_free() {
    let mut store = store();
    store.create(create_as(10, "Known")).unwrap();
    let eps = endpoints_after_replacing(
        &mut store,
        vec![
            stored(1, "Takes that of the known one", Some(1)),
            stored(2, "Takes the root", Some(0)),
            stored(3, "Free", Some(9)),
            stored(4, "Taken a moment ago", Some(9)),
            stored(10, "Known", None),
        ],
    );
    assert_eq!(eps, vec![(1, 2), (2, 3), (3, 9), (4, 4), (10, 1)]);
}

#[test]
fn an_identity_listed_twice_does_not_stand_in_its_own_way() {
    let eps = endpoints_after_replacing(
        &mut store(),
        vec![stored(1, "Once", Some(40)), stored(1, "Again", Some(40))],
    );
    assert_eq!(eps, vec![(1, 40)]);
}

#[test]
fn a_replacement_can_run_out_of_ids() {
    let exports: Vec<Export> = (2..=65535u16).map(|ep| stored(ep.into(), "E", Some(ep))).collect();
    let mut store = CatalogStore::load_or_new(
        "/data".into(),
        "Home".into(),
        None,
        Some(PersistedExports { exports }),
    )
    .unwrap();
    let err = store
        .replace(CatalogSnapshot {
            bridge_name: "Home".into(),
            exports: vec![stored(70000, "Last", None), stored(70001, "One too many", None)],
        })
        .unwrap_err();
    assert_eq!(err, CatalogError::EndpointExhausted);
    assert_eq!(store.export_count(), 65534);
}
