use vstd::prelude::*;
use vstd::arithmetic::power::pow;

verus! {

/// What a snap is, mathematically: its identity as a 128-bit value, its text,
/// its creation time in microseconds since the Unix epoch, and its insertion
/// number in the repository that made it.
pub ghost struct SnapView {
    pub id: u128,
    pub message: Seq<char>,
    pub timestamp: i64,
    pub seq: nat,
}

/// An immutable record: no method changes a snap once it is built.
#[derive(Debug, Clone)]
pub struct Snap {
    id: u128,
    message: String,
    timestamp: i64,
    seq: usize,
}

/// The lower-case hexadecimal digit of `n`, for `0 <= n < 16`.
pub open spec fn hex_digit(n: int) -> char {
    "0123456789abcdef"@[n]
}

/// The `i`-th hexadecimal digit of `v`, counted from the most significant.
pub open spec fn nibble(v: u128, i: int) -> int {
    (v as int / pow(16, (31 - i) as nat)) % 16
}

/// Which of the 32 digits stands at position `p` of the hyphenated form,
/// whose hyphens stand at positions 8, 13, 18 and 23.
pub open spec fn digit_at(p: int) -> int {
    if p < 8 {
        p
    } else if p < 13 {
        p - 1
    } else if p < 18 {
        p - 2
    } else if p < 23 {
        p - 3
    } else {
        p - 4
    }
}

/// The hyphenated lower-case text of the UUID whose 128 bits are `v`: its 32
/// hexadecimal digits, most significant first, in groups of 8, 4, 4, 4 and 12
/// separated by hyphens.
pub open spec fn uuid_text(v: u128) -> Seq<char> {
    Seq::new(
        36,
        |p: int|
            if p == 8 || p == 13 || p == 18 || p == 23 {
                '-'
            } else {
                hex_digit(nibble(v, digit_at(p)))
            },
    )
}

/// Relies on `uuid::Uuid::new_v4`: 122 random bits, with the version nibble set
/// to 4 and the variant bits set to `10`.
#[verifier::external_body]
pub(crate) fn random_uuid_bits() -> (r: u128)
    ensures
        r & 0xF000C000000000000000u128 == 0x40008000000000000000u128,
{
    uuid::Uuid::new_v4().as_u128()
}

/// Relies on `uuid::Uuid::from_u128` (big-endian bits) and its `Display`:
/// the hyphenated form in lower-case hexadecimal.
#[verifier::external_body]
fn format_uuid(v: u128) -> (r: String)
    ensures
        r@ == uuid_text(v),
{
    uuid::Uuid::from_u128(v).to_string()
}

/// Relies on `chrono::Utc::now` and `DateTime::timestamp_micros`: the current
/// time in microseconds since the Unix epoch. Nothing is known of its value.
#[verifier::external_body]
pub(crate) fn now_micros() -> (r: i64) {
    chrono::Utc::now().timestamp_micros()
}

impl View for Snap {
    type V = SnapView;

    closed spec fn view(&self) -> SnapView {
        SnapView {
            id: self.id,
            message: self.message@,
            timestamp: self.timestamp,
            seq: self.seq as nat,
        }
    }
}

impl Snap {
    /// Builds a snap from its identity, its message, its creation time and its
    /// insertion number.
    pub fn new(message: String, id: u128, timestamp: i64, seq: usize) -> (r: Snap)
        ensures
            r@ == (SnapView { id, message: message@, timestamp, seq: seq as nat }),
    {
        Snap { id, message, timestamp, seq }
    }

    /// The identity as hyphenated UUID text.
    pub fn id(&self) -> (r: String)
        ensures
            r@ == uuid_text(self@.id),
            r@.len() == 36,
    {
        format_uuid(self.id)
    }

    /// The identity as its 128 bits.
    pub fn id_bits(&self) -> (r: u128)
        ensures
            r == self@.id,
    {
        self.id
    }

    pub fn message(&self) -> (r: &str)
        ensures
            r@ == self@.message,
    {
        self.message.as_str()
    }

    /// Creation time, in microseconds since the Unix epoch.
    pub fn timestamp(&self) -> (r: i64)
        ensures
            r == self@.timestamp,
    {
        self.timestamp
    }

    /// Position of the snap in the insertion order of its repository.
    pub fn seq(&self) -> (r: usize)
        ensures
            r as nat == self@.seq,
    {
        self.seq
    }

    /// A copy with the same identity, text, time and insertion number.
    pub fn duplicate(&self) -> (r: Snap)
        ensures
            r@ == self@,
    {
        Snap {
            id: self.id,
            message: self.message.clone(),
            timestamp: self.timestamp,
            seq: self.seq,
        }
    }
}

} // verus!
