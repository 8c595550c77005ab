//! Commissioning material of an install: setup passcode and discriminator.
use vstd::prelude::*;
use vstd::string::*;

verus! {

/// Least setup passcode.
pub const PASSCODE_MIN: u32 = 1;

/// Greatest setup passcode.
pub const PASSCODE_MAX: u32 = 99999998;

/// Greatest discriminator: it has twelve bits.
pub const DISCRIMINATOR_MAX: u16 = 4095;

/// Setup passcodes that Matter forbids: trivial or well-known patterns.
pub open spec fn denied_passcode(passcode: u32) -> bool {
    ||| passcode == 0
    ||| passcode == 11111111
    ||| passcode == 22222222
    ||| passcode == 33333333
    ||| passcode == 44444444
    ||| passcode == 55555555
    ||| passcode == 66666666
    ||| passcode == 77777777
    ||| passcode == 88888888
    ||| passcode == 99999999
    ||| passcode == 12345678
    ||| passcode == 87654321
}

/// Setup passcodes that Matter allows.
pub open spec fn valid_passcode(passcode: u32) -> bool {
    PASSCODE_MIN <= passcode <= PASSCODE_MAX && !denied_passcode(passcode)
}

/// What a controller needs to pair with this install. Made once for a data directory and
/// used on every start, so that the pairing code stays the same.
#[derive(Debug, Clone, Copy, PartialEq, Eq, Structural)]
pub struct CommissioningMaterial {
    pub passcode: u32,
    pub discriminator: u16,
}

/// What was found where the material is stored.
#[derive(Debug)]
pub enum StoredMaterial {
    /// No file.
    Absent,
    /// A file that could not be read, and why.
    Unreadable(String),
    /// A file that holds something else.
    NotMaterial,
    /// Material, allowed by Matter or not.
    Material(CommissioningMaterial),
}

/// The material to use, given what is stored and what was drawn: the stored material where
/// it is there and Matter allows it, else the drawn material.
pub open spec fn kept_or_drawn(
    stored: Option<CommissioningMaterial>,
    drawn: CommissioningMaterial,
) -> CommissioningMaterial {
    if stored is Some && stored->0.valid() {
        stored->0
    } else {
        drawn
    }
}

/// `rand::Rng::gen_range` of the thread generator on an inclusive range: some number of the
/// range. Which one is left to chance.
#[verifier::external_body]
fn random_in(low: u32, high: u32) -> (r: u32)
    requires
        low <= high,
    ensures
        low <= r <= high,
{
    rand::Rng::gen_range(&mut rand::thread_rng(), low..=high)
}

/// Whether Matter forbids a setup passcode.
pub fn is_denied(passcode: u32) -> (r: bool)
    ensures
        r == denied_passcode(passcode),
{
    passcode == 0 || passcode == 11111111 || passcode == 22222222 || passcode == 33333333
        || passcode == 44444444 || passcode == 55555555 || passcode == 66666666 || passcode
        == 77777777 || passcode == 88888888 || passcode == 99999999 || passcode == 12345678
        || passcode == 87654321
}

/// The path of the material's file in the data directory.
pub open spec fn material_path(data_dir: Seq<char>) -> Seq<char> {
    if data_dir.len() == 0 || data_dir.last() == '/' {
        data_dir + "commissioning.json"@
    } else {
        data_dir + "/commissioning.json"@
    }
}

impl CommissioningMaterial {
    /// Whether Matter allows the material.
    pub open spec fn valid(self) -> bool {
        valid_passcode(self.passcode) && self.discriminator <= DISCRIMINATOR_MAX
    }

    /// Whether Matter allows the material.
    pub fn is_valid(&self) -> (r: bool)
        ensures
            r == self.valid(),
    {
        PASSCODE_MIN <= self.passcode && self.passcode <= PASSCODE_MAX && !is_denied(self.passcode)
            && self.discriminator <= DISCRIMINATOR_MAX
    }

    /// The stored material, where there is some that can be used. A file that cannot be read
    /// is an error: to change the pairing code for that would be worse than not to start.
    pub fn load(found: StoredMaterial) -> (r: Result<Option<CommissioningMaterial>, String>)
        ensures
            match found {
                StoredMaterial::Unreadable(m) => r == Err::<
                    Option<CommissioningMaterial>,
                    String,
                >(m),
                StoredMaterial::Material(m) => r == Ok::<Option<CommissioningMaterial>, String>(
                    if m.valid() {
                        Some(m)
                    } else {
                        None
                    },
                ),
                _ => r == Ok::<Option<CommissioningMaterial>, String>(None),
            },
    {
        match found {
            StoredMaterial::Absent => Ok(None),
            StoredMaterial::Unreadable(m) => Err(m),
            StoredMaterial::NotMaterial => Ok(None),
            StoredMaterial::Material(m) => if m.is_valid() {
                Ok(Some(m))
            } else {
                Ok(None)
            },
        }
    }

    /// The material of a drawn passcode and a drawn discriminator, where Matter allows it.
    pub fn from_draw(passcode: u32, discriminator: u16) -> (r: Option<Self>)
        ensures
            r == (if (CommissioningMaterial { passcode, discriminator }).valid() {
                Some(CommissioningMaterial { passcode, discriminator })
            } else {
                None
            }),
    {
        let material = CommissioningMaterial { passcode, discriminator };
        if material.is_valid() {
            Some(material)
        } else {
            None
        }
    }

    /// Chooses between stored and drawn material: what is stored, where Matter allows it,
    /// else what was drawn.
    pub fn keep_or_take(stored: Option<Self>, drawn: Self) -> (r: Self)
        ensures
            r == kept_or_drawn(stored, drawn),
    {
        match stored {
            Some(material) => if material.is_valid() {
                material
            } else {
                drawn
            },
            None => drawn,
        }
    }

    /// Draws material at random. A passcode that is forbidden is drawn again; after four
    /// billion forbidden draws in a row the number above the last is taken, which is allowed.
    fn generate() -> (r: Self)
        ensures
            r.valid(),
    {
        let discriminator: u16 = random_in(0, DISCRIMINATOR_MAX as u32) as u16;
        let mut candidate: u32 = random_in(PASSCODE_MIN, PASSCODE_MAX);
        let mut attempts: u32 = u32::MAX;
        while attempts > 0
            invariant
                PASSCODE_MIN <= candidate <= PASSCODE_MAX,
                discriminator <= DISCRIMINATOR_MAX,
            decreases attempts,
        {
            match Self::from_draw(candidate, discriminator) {
                Some(material) => {
                    return material;
                },
                None => {
                    candidate = random_in(PASSCODE_MIN, PASSCODE_MAX);
                },
            }
            attempts = attempts - 1;
        }
        match Self::from_draw(candidate, discriminator) {
            Some(material) => material,
            None => CommissioningMaterial { passcode: candidate + 1, discriminator },
        }
    }

    /// The material to use: what is stored, where it can be read and Matter allows it, else
    /// new material.
    pub fn load_or_generate(stored: Option<CommissioningMaterial>) -> (r: Self)
        ensures
            r.valid(),
            exists|drawn: Self| drawn.valid() && r == #[trigger] kept_or_drawn(stored, drawn),
            stored is Some && stored->0.valid() ==> r == stored->0,
    {
        let drawn: Self = Self::generate();
        Self::keep_or_take(stored, drawn)
    }

    /// The path of the material's file in the data directory.
    pub fn path(data_dir: &str) -> (r: String)
        ensures
            r@ == material_path(data_dir@),
    {
        let n: usize = data_dir.unicode_len();
        if n == 0 || data_dir.get_char(n - 1) == '/' {
            data_dir.to_owned().concat("commissioning.json")
        } else {
            data_dir.to_owned().concat("/commissioning.json")
        }
    }
}

/// Matter forbids the passcodes of one digit eight times over, and the two that count up from
/// 1 to 8 and down from 8 to 1.
pub proof fn law_denied_passcodes(passcode: u32)
    ensures
        denied_passcode(passcode) <==> (passcode <= 99999999 && passcode % 11111111 == 0)
            || passcode == 12345678 || passcode == 87654321,
{
}

/// Material is allowed exactly with a passcode of at most eight digits that is not forbidden
/// and a discriminator of twelve bits.
pub proof fn law_valid_material(material: CommissioningMaterial)
    ensures
        material.valid() <==> material.passcode <= 99999999 && !denied_passcode(material.passcode)
            && material.discriminator < 4096,
{
}

/// Stored material that Matter allows is kept, whatever was drawn; without any, what was drawn
/// is used.
pub proof fn law_kept_material(
    stored: CommissioningMaterial,
    drawn: CommissioningMaterial,
    other: CommissioningMaterial,
)
    ensures
        stored.valid() ==> kept_or_drawn(Some(stored), drawn) == stored,
        stored.valid() ==> kept_or_drawn(Some(stored), drawn) == kept_or_drawn(
            Some(stored),
            other,
        ),
        !stored.valid() ==> kept_or_drawn(Some(stored), drawn) == drawn,
        kept_or_drawn(None, drawn) == drawn,
        drawn.valid() ==> kept_or_drawn(Some(stored), drawn).valid(),
{
}

/// The material lies in the file `commissioning.json` of the data directory, behind a slash
/// where the directory is named without one at its end.
pub proof fn law_material_path(data_dir: Seq<char>)
    ensures
        data_dir.len() == 0 ==> material_path(data_dir) == "commissioning.json"@,
        data_dir.len() > 0 && data_dir.last() != '/' ==> material_path(data_dir) == material_path(
            data_dir.push('/'),
        ),
        data_dir.len() > 0 && data_dir.last() == '/' ==> material_path(data_dir) == data_dir
            + "commissioning.json"@,
{
    reveal_strlit("commissioning.json");
    reveal_strlit("/commissioning.json");
    let short = "commissioning.json"@;
    let long = "/commissioning.json"@;
    assert(long =~= seq!['/'] + short);
    assert(data_dir + long =~= data_dir.push('/') + short);
    if data_dir.len() == 0 {
        assert(data_dir + short =~= short);
    }
}

} // verus!
