//! Commissioning material and the pairing codes made from it.

use thatsmatter_bridge::matter::commissioning::{
    is_denied, CommissioningMaterial, StoredMaterial,
};
use thatsmatter_bridge::matter::pairing::{
    basic_comm_data, pairing_material_for, pairing_material_from, pretty_code,
};

/// Bounds that Matter sets.
const MATTER_MAX_PASSCODE: u32 = 99_999_998;
const MATTER_MAX_DISCRIMINATOR: u16 = 4095;
const MATTER_INVALID_PASSCODES: [u32; 12] = [
    0, 11_111_111, 22_222_222, 33_333_333, 44_444_444, 55_555_555, 66_666_666, 77_777_777,
    88_888_888, 99_999_999, 12_345_678, 87_654_321,
];

fn assert_allowed(material: &CommissioningMaterial) {
    assert!(
        (1..=MATTER_MAX_PASSCODE).contains(&material.passcode),
        "passcode {} out of range",
        material.passcode
    );
    assert!(
        !MATTER_INVALID_PASSCODES.contains(&material.passcode),
        "passcode {} is forbidden",
        material.passcode
    );
    assert!(
        material.discriminator <= MATTER_MAX_DISCRIMINATOR,
        "discriminator {} exceeds twelve bits",
        material.discriminator
    );
}

#[test]
fn generate_then_reload_is_stable() {
    let first = CommissioningMaterial::load_or_generate(None);
    let second = CommissioningMaterial::load_or_generate(Some(first));
    assert_eq!(first, second);
}

#[test]
fn generated_material_is_within_spec_bounds() {
    for _ in 0..32 {
        assert_allowed(&CommissioningMaterial::load_or_generate(None));
    }
}

#[test]
fn distinct_data_dirs_get_distinct_passcodes() {
    let distinct = (0..3).any(|_| {
        let left = CommissioningMaterial::load_or_generate(None);
        let right = CommissioningMaterial::load_or_generate(None);
        left.passcode != right.passcode
    });
    assert!(distinct, "two fresh installs drew the same passcode 3 times");
}

#[test]
fn denylisted_persisted_passcode_is_regenerated() {
    let stored = CommissioningMaterial {
        passcode: 12_345_678,
        discriminator: 3840,
    };
    let loaded = CommissioningMaterial::load_or_generate(Some(stored));
    assert_ne!(loaded.passcode, stored.passcode);
    assert_allowed(&loaded);
    assert_eq!(CommissioningMaterial::load_or_generate(Some(loaded)), loaded);
}

#[test]
fn out_of_range_persisted_values_are_regenerated() {
    assert_allowed(&CommissioningMaterial::load_or_generate(Some(CommissioningMaterial {
        passcode: 100_000_000,
        discriminator: 3840,
    })));
    assert_allowed(&CommissioningMaterial::load_or_generate(Some(CommissioningMaterial {
        passcode: 20_202_021,
        discriminator: 5000,
    })));
}

#[test]
fn unreadable_persisted_material_is_regenerated() {
    let stored = CommissioningMaterial::load(StoredMaterial::NotMaterial).unwrap();
    let material = CommissioningMaterial::load_or_generate(stored);
    assert_allowed(&material);
    assert_eq!(CommissioningMaterial::load_or_generate(Some(material)), material);
}

#[test]
fn every_forbidden_passcode_is_denied() {
    for passcode in MATTER_INVALID_PASSCODES {
        assert!(is_denied(passcode), "{passcode}");
        let material = CommissioningMaterial {
            passcode,
            discriminator: 0,
        };
        assert!(!material.is_valid(), "{passcode}");
    }
    for passcode in [1, 20_202_021, 87_654_320, 99_999_998] {
        assert!(!is_denied(passcode), "{passcode}");
        let material = CommissioningMaterial {
            passcode,
            discriminator: 4095,
        };
        assert!(material.is_valid(), "{passcode}");
    }
    let too_far = CommissioningMaterial {
        passcode: 20_202_021,
        discriminator: 4096,
    };
    assert!(!too_far.is_valid());
}

#[test]
fn the_material_file_lies_in_the_data_directory() {
    assert_eq!(CommissioningMaterial::path("/data"), "/data/commissioning.json");
    assert_eq!(CommissioningMaterial::path("/data/"), "/data/commissioning.json");
    assert_eq!(CommissioningMaterial::path(""), "commissioning.json");
}

#[test]
fn pairing_material_is_non_empty_and_stable() {
    let material = CommissioningMaterial::load_or_generate(None);
    let a = pairing_material_for(&material);
    let b = pairing_material_for(&material);
    assert!(!a.setup_code.is_empty());
    assert!(!a.qr_payload.is_empty());
    assert!(a.qr_payload.starts_with("MT:"));
    assert_eq!(a.discriminator, u32::from(material.discriminator));
    assert_eq!(a.passcode, material.passcode);
    assert_eq!(a.setup_code, b.setup_code);
    assert_eq!(a.qr_payload, b.qr_payload);
    // Eleven digits split by two dashes: NNNN-NNNN-NNN.
    assert_eq!(a.setup_code.len(), 13);
    assert_eq!(a.setup_code.matches('-').count(), 2);
}

#[test]
fn distinct_material_yields_distinct_codes() {
    let a = pairing_material_for(&CommissioningMaterial {
        passcode: 20_202_021,
        discriminator: 3840,
    });
    let b = pairing_material_for(&CommissioningMaterial {
        passcode: 20_202_022,
        discriminator: 3841,
    });
    assert_ne!(a.setup_code, b.setup_code);
    assert_ne!(a.qr_payload, b.qr_payload);
}

#[test]
fn comm_data_round_trips_the_passcode() {
    let material = CommissioningMaterial {
        passcode: 87_654_320,
        discriminator: 1234,
    };
    let comm = basic_comm_data(&material);
    assert_eq!(u32::from_le_bytes(comm.password), material.passcode);
    assert_eq!(comm.discriminator, material.discriminator);
}

#[test]
fn setup_codes_have_the_known_values() {
    let code = |passcode, discriminator| {
        pairing_material_for(&CommissioningMaterial {
            passcode,
            discriminator,
        })
        .setup_code
    };
    assert_eq!(code(123456, 250), "0087-6800-071");
    assert_eq!(code(34567890, 2976), "2631-8621-095");
}

#[test]
fn the_payload_tells_materials_apart_that_share_a_setup_code() {
    // The setup code holds the upper four bits of the discriminator only.
    let near = |discriminator| {
        pairing_material_for(&CommissioningMaterial {
            passcode: 20_202_021,
            discriminator,
        })
    };
    let (a, b) = (near(3840), near(3841));
    assert_eq!(a.setup_code, b.setup_code);
    assert_ne!(a.qr_payload, b.qr_payload);
}

#[test]
fn codes_are_put_together_as_given() {
    let material = CommissioningMaterial {
        passcode: 7,
        discriminator: 9,
    };
    assert_eq!(pretty_code("01234567890"), "0123-4567-890");
    let shown = pairing_material_from(&material, "01234567890", "MT:ABC".to_string());
    assert_eq!(shown.setup_code, "0123-4567-890");
    assert_eq!(shown.qr_payload, "MT:ABC");
    assert_eq!((shown.passcode, shown.discriminator), (7, 9));
}

#[test]
fn the_payload_has_the_known_value() {
    let shown = pairing_material_for(&CommissioningMaterial {
        passcode: 20_202_021,
        discriminator: 3840,
    });
    assert_eq!(shown.qr_payload, "MT:-24J0AFN00KA064IJ3P0WISA0DK5N1K8SQ1RYCU1O0");
    assert_eq!(shown.setup_code, "3497-0112-332");
}

#[test]
fn drawn_values_become_the_material() {
    let drawn = CommissioningMaterial::from_draw(31_415_926, 2718).unwrap();
    assert_eq!((drawn.passcode, drawn.discriminator), (31_415_926, 2718));
    assert_eq!(CommissioningMaterial::from_draw(12_345_678, 2718), None);
    assert_eq!(CommissioningMaterial::from_draw(99_999_999, 0), None);
    assert_eq!(CommissioningMaterial::from_draw(31_415_926, 4096), None);

    let stored = CommissioningMaterial::from_draw(20_202_021, 3840).unwrap();
    let refused = CommissioningMaterial {
        passcode: 0,
        discriminator: 3840,
    };
    assert_eq!(CommissioningMaterial::keep_or_take(Some(stored), drawn), stored);
    assert_eq!(CommissioningMaterial::keep_or_take(Some(refused), drawn), drawn);
    assert_eq!(CommissioningMaterial::keep_or_take(None, drawn), drawn);
}

#[test]
fn only_allowed_material_is_loaded() {
    let load = CommissioningMaterial::load;
    let stored = CommissioningMaterial {
        passcode: 20_202_021,
        discriminator: 3840,
    };
    let refused = CommissioningMaterial {
        passcode: 11_111_111,
        discriminator: 3840,
    };
    assert_eq!(load(StoredMaterial::Absent), Ok(None));
    assert_eq!(load(StoredMaterial::NotMaterial), Ok(None));
    assert_eq!(load(StoredMaterial::Material(stored)), Ok(Some(stored)));
    assert_eq!(load(StoredMaterial::Material(refused)), Ok(None));
    // What cannot be read stops the start: the pairing code is not changed for it.
    assert_eq!(
        load(StoredMaterial::Unreadable("permission denied".into())),
        Err("permission denied".to_string())
    );
}
