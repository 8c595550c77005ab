//! Pairing material: what a controller needs to commission the bridge, as codes.
use super::commissioning::CommissioningMaterial;
use crate::catalog::model::PairingView;
use crate::catalog::PairingMaterial;
use crate::text;
use vstd::prelude::*;
use vstd::string::*;

verus! {

/// The last `len` decimal digits of `n`.
pub open spec fn decimal(n: nat, len: nat) -> Seq<char>
    decreases len,
{
    if len == 0 {
        Seq::empty()
    } else {
        decimal(n / 10, (len - 1) as nat).push((n % 10 + '0' as nat) as char)
    }
}

/// The digits of a manual pairing code before its check digit: the two upper bits of the
/// discriminator, the next two bits with the lower fourteen bits of the passcode, and the
/// rest of the passcode.
pub open spec fn leading_digits(passcode: u32, discriminator: u16) -> Seq<char> {
    decimal((discriminator / 1024) as nat, 1) + decimal(
        ((discriminator / 256) % 4) as nat * 16384 + (passcode % 16384) as nat,
        5,
    ) + decimal((passcode / 16384) as nat, 4)
}

/// Whether a manual pairing code can be made: all its fields fit their digits.
pub open spec fn has_code(passcode: u32, discriminator: u16) -> bool {
    passcode < 163840000 && discriminator < 10240
}

/// The product of two digits in the dihedral group of order ten, where the digits below five
/// are the rotations.
pub open spec fn dihedral(a: int, b: int) -> int {
    if a < 5 && b < 5 {
        (a + b) % 5
    } else if a < 5 {
        5 + (a + b) % 5
    } else if b < 5 {
        5 + (a - b) % 5
    } else {
        (a - b) % 5
    }
}

/// The inverse of a digit in the dihedral group of order ten.
pub open spec fn dihedral_inverse(a: int) -> int {
    if a < 5 {
        (5 - a) % 5
    } else {
        a
    }
}

/// A digit after `n` rounds of the permutation of the Verhoeff scheme.
pub open spec fn permuted(digit: int, n: nat) -> int
    decreases n,
{
    if n == 0 {
        digit
    } else {
        let d = permuted(digit, (n - 1) as nat);
        if d == 0 {
            1
        } else if d == 1 {
            5
        } else if d == 2 {
            7
        } else if d == 3 {
            6
        } else if d == 4 {
            2
        } else if d == 5 {
            8
        } else if d == 6 {
            3
        } else if d == 7 {
            0
        } else if d == 8 {
            9
        } else {
            4
        }
    }
}

/// The Verhoeff sum of the last `k` digits, the last first: each permuted by its place, which
/// counts from one.
pub open spec fn check_sum(digits: Seq<char>, k: nat) -> int
    decreases k,
{
    if k == 0 {
        0
    } else {
        dihedral(
            check_sum(digits, (k - 1) as nat),
            permuted(digits[digits.len() - k] as int - '0' as int, k),
        )
    }
}

/// The Verhoeff check digit of some digits.
pub open spec fn check_digit(digits: Seq<char>) -> char {
    (dihedral_inverse(check_sum(digits, digits.len())) + '0' as int) as char
}

/// The manual pairing code for a passcode and a discriminator.
pub open spec fn manual_code(passcode: u32, discriminator: u16) -> Seq<char> {
    let lead = leading_digits(passcode, discriminator);
    lead.push(check_digit(lead))
}

/// The QR payload for a passcode and a discriminator, on a device of the given vendor,
/// product and serial number that is discovered on the IP network, over Bluetooth or as an
/// access point, as `rs-matter` encodes it; empty where it refuses to.
pub uninterp spec fn qr_payload(
    passcode: u32,
    discriminator: u16,
    vid: u16,
    pid: u16,
    serial: Seq<char>,
    on_ip_network: bool,
    ble: bool,
    soft_access_point: bool,
) -> Seq<char>;

/// `rs_matter::pairing::code::compute_pairing_code`: the digits of passcode and
/// discriminator, and their Verhoeff check digit.
#[verifier::external_body]
fn compute_pairing_code(passcode: u32, discriminator: u16) -> (r: String)
    requires
        has_code(passcode, discriminator),
    ensures
        r@ == manual_code(passcode, discriminator),
{
    let verifier = rs_matter::secure_channel::spake2p::VerifierData::new_with_pw(
        passcode,
        rs_matter::utils::rand::dummy_rand,
    );
    let data = rs_matter::CommissioningData { verifier, discriminator };
    rs_matter::pairing::code::compute_pairing_code(&data).to_string()
}

/// `rs_matter::pairing::qr::compute_qr_code` with at most sixteen characters of serial
/// number. For material that Matter allows, proper vendor and product ids and some way of
/// discovery it gives a text that begins with `MT:`, and gives different texts for different
/// material. What else the text holds is not said here.
#[verifier::external_body]
fn compute_qr_code(
    passcode: u32,
    discriminator: u16,
    vid: u16,
    pid: u16,
    serial: &str,
    on_ip_network: bool,
    ble: bool,
    soft_access_point: bool,
) -> (r: String)
    requires
        serial@.len() <= 16,
    ensures
        r@ == qr_payload(
            passcode,
            discriminator,
            vid,
            pid,
            serial@,
            on_ip_network,
            ble,
            soft_access_point,
        ),
        (CommissioningMaterial { passcode, discriminator }).valid() && proper_device(vid, pid) && (
        on_ip_network || ble || soft_access_point) ==> text::has_prefix(r@, "MT:"@),
        forall|p: u32, d: u16|
            (CommissioningMaterial { passcode, discriminator }).valid() && proper_device(vid, pid)
                && (on_ip_network || ble || soft_access_point) && (CommissioningMaterial {
                passcode: p,
                discriminator: d,
            }).valid() && r@ == #[trigger] qr_payload(
                p,
                d,
                vid,
                pid,
                serial@,
                on_ip_network,
                ble,
                soft_access_point,
            ) ==> p == passcode && d == discriminator,
{
    let verifier = rs_matter::secure_channel::spake2p::VerifierData::new_with_pw(
        passcode,
        rs_matter::utils::rand::dummy_rand,
    );
    let data = rs_matter::CommissioningData { verifier, discriminator };
    let mut device = rs_matter::data_model::cluster_basic_information::BasicInfoConfig::default();
    (device.vid, device.pid, device.serial_no) = (vid, pid, serial);
    let caps = rs_matter::pairing::DiscoveryCapabilities::new(on_ip_network, ble, soft_access_point);
    match rs_matter::pairing::qr::compute_qr_code(&device, &data, caps, &mut [0u8; 1024]) {
        Ok(text) => text.to_string(),
        Err(_) => String::new(),
    }
}

/// Whether vendor and product id can belong to a device.
pub open spec fn proper_device(vid: u16, pid: u16) -> bool {
    1 <= vid <= 0xFFF4 && pid != 0
}

/// Vendor id of the test device, to which its attestation is bound.
pub const TEST_VENDOR_ID: u16 = 0xFFF1;

/// Product id of the test device, to which its attestation is bound.
pub const TEST_PRODUCT_ID: u16 = 0x8001;

/// Serial number of the test device, as the test devices of `rs-matter` 0.2 have it.
pub open spec fn test_serial() -> Seq<char> {
    "123456789"@
}

/// A pairing code in groups of four, four and three digits.
pub open spec fn pretty(code: Seq<char>) -> Seq<char> {
    code.subrange(0, 4).push('-') + code.subrange(4, 8).push('-') + code.subrange(8, 11)
}

/// Writes a pairing code in groups of four, four and three digits.
pub fn pretty_code(code: &str) -> (r: String)
    requires
        code@.len() == 11,
    ensures
        r@ == pretty(code@),
{
    let mut out: String = code.substring_char(0, 4).to_owned();
    out.push('-');
    out.append(code.substring_char(4, 8));
    out.push('-');
    out.append(code.substring_char(8, 11));
    assert(out@ =~= pretty(code@));
    out
}

/// What the Matter stack is started with.
#[derive(Debug, Clone, Copy, PartialEq, Eq)]
pub struct BasicCommData {
    /// The passcode, least octet first.
    pub password: [u8; 4],
    pub discriminator: u16,
}

impl BasicCommData {
    /// The passcode.
    pub open spec fn passcode(self) -> int {
        self.password@[0] + 256 * self.password@[1] + 65536 * self.password@[2] + 16777216
            * self.password@[3]
    }
}

/// The commissioning data of the Matter stack for this install. The stack and the codes
/// shown to the user are made of the same values.
pub fn basic_comm_data(material: &CommissioningMaterial) -> (r: BasicCommData)
    ensures
        r.passcode() == material.passcode,
        r.discriminator == material.discriminator,
{
    let p: u32 = material.passcode;
    BasicCommData {
        password: [
            (p % 256) as u8,
            ((p / 256) % 256) as u8,
            ((p / 65536) % 256) as u8,
            (p / 16777216) as u8,
        ],
        discriminator: material.discriminator,
    }
}

/// Puts pairing material together from the codes for it.
pub fn pairing_material_from(
    material: &CommissioningMaterial,
    code: &str,
    qr_payload: String,
) -> (r: PairingMaterial)
    requires
        code@.len() == 11,
    ensures
        r.setup_code@ == pretty(code@),
        r.qr_payload@ == qr_payload@,
        r.discriminator == material.discriminator,
        r.passcode == material.passcode,
{
    PairingMaterial {
        setup_code: pretty_code(code),
        qr_payload,
        discriminator: material.discriminator as u32,
        passcode: material.passcode,
    }
}

/// The QR payload of this install: of the test device, discovered on the IP network alone.
pub open spec fn install_payload(passcode: u32, discriminator: u16) -> Seq<char> {
    qr_payload(
        passcode,
        discriminator,
        TEST_VENDOR_ID,
        TEST_PRODUCT_ID,
        test_serial(),
        true,
        false,
        false,
    )
}

/// The pairing material of some commissioning material.
pub open spec fn shown(material: CommissioningMaterial) -> PairingView {
    PairingView {
        setup_code: pretty(manual_code(material.passcode, material.discriminator)),
        qr_payload: install_payload(material.passcode, material.discriminator),
        discriminator: material.discriminator as u32,
        passcode: material.passcode,
    }
}

/// Builds pairing material from the commissioning material of this install. Controllers
/// commission with it while the bridge is advertised on the network.
pub fn pairing_material_for(material: &CommissioningMaterial) -> (r: PairingMaterial)
    requires
        has_code(material.passcode, material.discriminator),
    ensures
        r@ == shown(*material),
        r.setup_code@.len() == 13,
        r.setup_code@[4] == '-',
        r.setup_code@[9] == '-',
        material.valid() ==> text::has_prefix(r.qr_payload@, "MT:"@),
        forall|p: u32, d: u16|
            material.valid() && (CommissioningMaterial { passcode: p, discriminator: d }).valid()
                && r.qr_payload@ == #[trigger] install_payload(p, d) ==> p == material.passcode && d
                == material.discriminator,
{
    proof {
        lemma_leading(material.passcode, material.discriminator);
        reveal_strlit("123456789");
    }
    let code: String = compute_pairing_code(material.passcode, material.discriminator);
    let qr: String = compute_qr_code(
        material.passcode,
        material.discriminator,
        TEST_VENDOR_ID,
        TEST_PRODUCT_ID,
        "123456789",
        true,
        false,
        false,
    );
    pairing_material_from(material, code.as_str(), qr)
}

/// Ten to the power of `len`.
spec fn ten_to(len: nat) -> nat
    decreases len,
{
    if len == 0 {
        1
    } else {
        10 * ten_to((len - 1) as nat)
    }
}

/// Digits spell the number that they were made of.
proof fn lemma_decimal_value(n: nat, len: nat)
    requires
        n < ten_to(len),
    ensures
        decimal(n, len).len() == len,
        text::digits_value(decimal(n, len)) == n,
    decreases len,
{
    if len > 0 {
        lemma_decimal_value(n / 10, (len - 1) as nat);
        let all = decimal(n, len);
        assert(all.drop_last() =~= decimal(n / 10, (len - 1) as nat));
        assert(((n % 10 + '0' as nat) as char) as nat == n % 10 + '0' as nat);
    }
}

/// A setup code tells the passcode and the four upper bits of the discriminator apart: two
/// installs with different passcodes never show the same setup code.
pub proof fn law_setup_code_tells_passcode(a: CommissioningMaterial, b: CommissioningMaterial)
    requires
        has_code(a.passcode, a.discriminator),
        has_code(b.passcode, b.discriminator),
        shown(a).setup_code == shown(b).setup_code,
    ensures
        a.passcode == b.passcode,
        a.discriminator / 256 == b.discriminator / 256,
{
    let (p1, d1, p2, d2) = (a.passcode, a.discriminator, b.passcode, b.discriminator);
    lemma_leading(p1, d1);
    lemma_leading(p2, d2);
    let v = manual_code(p1, d1);
    let w = manual_code(p2, d2);
    assert(v =~= w) by {
        lemma_ungroup(v);
        lemma_ungroup(w);
    }
    let x = leading_digits(p1, d1);
    let y = leading_digits(p2, d2);
    assert(x =~= v.take(10));
    assert(y =~= w.take(10));
    assert(x.subrange(0, 1) == y.subrange(0, 1));
    assert(x.subrange(1, 6) == y.subrange(1, 6));
    assert(x.subrange(6, 10) == y.subrange(6, 10));
    assert(p1 % 16384 == p2 % 16384 && (d1 / 256) % 4 == (d2 / 256) % 4);
    assert(d1 / 256 == 4 * (d1 / 1024) + (d1 / 256) % 4);
    assert(d2 / 256 == 4 * (d2 / 1024) + (d2 / 256) % 4);
}

/// A code can be read back from its groups.
proof fn lemma_ungroup(code: Seq<char>)
    requires
        code.len() == 11,
    ensures
        code == pretty(code).subrange(0, 4) + pretty(code).subrange(5, 9) + pretty(
            code,
        ).subrange(10, 13),
{
    assert(code =~= pretty(code).subrange(0, 4) + pretty(code).subrange(5, 9) + pretty(
        code,
    ).subrange(10, 13));
}

/// The fields of a manual pairing code fit their digits.
proof fn lemma_leading(passcode: u32, discriminator: u16)
    requires
        has_code(passcode, discriminator),
    ensures
        ({
            let s = leading_digits(passcode, discriminator);
            &&& s.len() == 10
            &&& text::digits_value(s.subrange(0, 1)) == discriminator / 1024
            &&& text::digits_value(s.subrange(1, 6)) == ((discriminator / 256) % 4) * 16384
                + passcode % 16384
            &&& text::digits_value(s.subrange(6, 10)) == passcode / 16384
        }),
{
    reveal_with_fuel(ten_to, 6);
    let a = decimal((discriminator / 1024) as nat, 1);
    let b = decimal(
        ((discriminator / 256) % 4) as nat * 16384 + (passcode % 16384) as nat,
        5,
    );
    let c = decimal((passcode / 16384) as nat, 4);
    lemma_decimal_value((discriminator / 1024) as nat, 1);
    lemma_decimal_value(
        ((discriminator / 256) % 4) as nat * 16384 + (passcode % 16384) as nat,
        5,
    );
    lemma_decimal_value((passcode / 16384) as nat, 4);
    let s = leading_digits(passcode, discriminator);
    assert(s.subrange(0, 1) =~= a);
    assert(s.subrange(1, 6) =~= b);
    assert(s.subrange(6, 10) =~= c);
}

/// Material that Matter allows has a pairing code.
pub proof fn law_valid_material_has_code(material: CommissioningMaterial)
    requires
        material.valid(),
    ensures
        has_code(material.passcode, material.discriminator),
{
}

/// A setup code shows its eleven digits in order, with hyphens behind the fourth and the eighth.
pub proof fn law_grouping(code: Seq<char>, i: int)
    requires
        code.len() == 11,
        0 <= i < 11,
    ensures
        pretty(code).len() == 13,
        pretty(code)[4] == '-',
        pretty(code)[9] == '-',
        i < 4 ==> pretty(code)[i] == code[i],
        4 <= i < 8 ==> pretty(code)[i + 1] == code[i],
        8 <= i ==> pretty(code)[i + 2] == code[i],
{
}

/// The first ten digits of a setup code give back the passcode and the four upper bits of the
/// discriminator: digit 1, digits 2 to 6 and digits 7 to 10 are numbers of which they are made.
pub proof fn law_setup_code_spells_material(material: CommissioningMaterial)
    requires
        has_code(material.passcode, material.discriminator),
    ensures
        ({
            let code = manual_code(material.passcode, material.discriminator);
            let first = text::digits_value(code.subrange(0, 1));
            let second = text::digits_value(code.subrange(1, 6));
            let third = text::digits_value(code.subrange(6, 10));
            &&& code.len() == 11
            &&& shown(material).setup_code == pretty(code)
            &&& material.passcode == third * 16384 + second % 16384
            &&& material.discriminator / 256 == first * 4 + second / 16384
        }),
{
    let (p, d) = (material.passcode, material.discriminator);
    lemma_leading(p, d);
    let code = manual_code(p, d);
    let lead = leading_digits(p, d);
    assert(code.subrange(0, 1) =~= lead.subrange(0, 1));
    assert(code.subrange(1, 6) =~= lead.subrange(1, 6));
    assert(code.subrange(6, 10) =~= lead.subrange(6, 10));
}

/// What is shown of material is that material, its setup code, and the QR payload of the test
/// device with it, discovered on the IP network alone.
pub proof fn law_shown(material: CommissioningMaterial)
    ensures
        shown(material).passcode == material.passcode,
        shown(material).discriminator == material.discriminator,
        shown(material).qr_payload == qr_payload(
            material.passcode,
            material.discriminator,
            0xFFF1,
            0x8001,
            "123456789"@,
            true,
            false,
            false,
        ),
{
}

/// A digit and its inverse cancel out, and 0 changes nothing; a product of digits is a digit.
pub proof fn law_dihedral(a: int, b: int)
    requires
        0 <= a < 10,
        0 <= b < 10,
    ensures
        dihedral(a, dihedral_inverse(a)) == 0,
        dihedral(dihedral_inverse(a), a) == 0,
        dihedral(0, a) == a,
        dihedral(a, 0) == a,
        0 <= dihedral(a, b) < 10,
        0 <= dihedral_inverse(a) < 10,
{
}

/// Commissioning data hold the passcode with its least octet first.
pub proof fn law_passcode_octets(data: BasicCommData)
    ensures
        data.passcode() % 256 == data.password@[0],
        data.passcode() / 256 % 256 == data.password@[1],
        data.passcode() / 65536 % 256 == data.password@[2],
        data.passcode() / 16777216 == data.password@[3],
{
}

} // verus!
