//! The record entity, caller input, validation, and the error type.
//!
//! A record's three text fields are non-empty after validation, its
//! `rental_days` is non-zero, and the texts are short enough that the binary
//! encoding of the record (see `codec`) always fits the fixed storage bound
//! of 4096 bytes. Oversized text is rejected at validation time, as an
//! invalid input, rather than truncated.

use vstd::prelude::*;
use vstd::string::StringExecFns;
use vstd::utf8::encode_utf8;

verus! {

/// Hard bound on the encoded byte length of one stored record.
pub const MAX_RECORD_BYTES: usize = 4096;

/// Bound on the UTF-8 byte lengths of the three text fields together.
///
/// The encoding spends a fixed 57 bytes on everything else: six 8-byte
/// integers (the id, the daily rate, the day count and one length prefix per
/// text field) plus, at worst, a 9-byte update timestamp.
pub const MAX_TEXT_BYTES: usize = MAX_RECORD_BYTES - 57;

/// A motorcycle rental booking, uniquely identified by `id`.
#[derive(Clone, Debug, PartialEq, Eq)]
pub struct Rental {
    pub id: u64,
    pub motorcycle_brand: String,
    pub daily_rate: u64,
    pub rental_date: String,
    pub renter_name: String,
    pub rental_days: u64,
    pub updated_at: Option<u64>,
}

/// The mathematical value of a `Rental`: its texts as character sequences.
pub ghost struct RentalView {
    pub id: u64,
    pub motorcycle_brand: Seq<char>,
    pub daily_rate: u64,
    pub rental_date: Seq<char>,
    pub renter_name: Seq<char>,
    pub rental_days: u64,
    pub updated_at: Option<u64>,
}

impl View for Rental {
    type V = RentalView;

    open spec fn view(&self) -> RentalView {
        RentalView {
            id: self.id,
            motorcycle_brand: self.motorcycle_brand@,
            daily_rate: self.daily_rate,
            rental_date: self.rental_date@,
            renter_name: self.renter_name@,
            rental_days: self.rental_days,
            updated_at: self.updated_at,
        }
    }
}

/// What a caller supplies to create or update a record: every record field
/// except the id and the update timestamp, which the service assigns.
#[derive(Clone, Debug, PartialEq, Eq)]
pub struct RentalInput {
    pub motorcycle_brand: String,
    pub daily_rate: u64,
    pub rental_date: String,
    pub renter_name: String,
    pub rental_days: u64,
}

/// The mathematical value of a `RentalInput`.
pub ghost struct InputView {
    pub motorcycle_brand: Seq<char>,
    pub daily_rate: u64,
    pub rental_date: Seq<char>,
    pub renter_name: Seq<char>,
    pub rental_days: u64,
}

impl View for RentalInput {
    type V = InputView;

    open spec fn view(&self) -> InputView {
        InputView {
            motorcycle_brand: self.motorcycle_brand@,
            daily_rate: self.daily_rate,
            rental_date: self.rental_date@,
            renter_name: self.renter_name@,
            rental_days: self.rental_days,
        }
    }
}

/// The record built from an input by assigning it an id and a timestamp:
/// what `add` stores (with no timestamp) and what `update` stores.
pub open spec fn record_of(iv: InputView, id: u64, updated_at: Option<u64>) -> RentalView {
    RentalView {
        id,
        motorcycle_brand: iv.motorcycle_brand,
        daily_rate: iv.daily_rate,
        rental_date: iv.rental_date,
        renter_name: iv.renter_name,
        rental_days: iv.rental_days,
        updated_at,
    }
}

/// A valid input: the three texts are non-empty, the rental lasts at least
/// one day, and the texts fit the storage bound. The daily rate is
/// unconstrained; zero is accepted.
pub open spec fn valid_input(iv: InputView) -> bool {
    &&& iv.motorcycle_brand.len() > 0
    &&& iv.rental_date.len() > 0
    &&& iv.renter_name.len() > 0
    &&& iv.rental_days != 0
    &&& encode_utf8(iv.motorcycle_brand).len() + encode_utf8(iv.rental_date).len() + encode_utf8(
        iv.renter_name,
    ).len() <= MAX_TEXT_BYTES
}

/// Decides `valid_input` for a caller-supplied input.
pub fn validate_input(input: &RentalInput) -> (ok: bool)
    ensures
        ok == valid_input(input@),
{
    if input.motorcycle_brand.as_str().is_empty() || input.rental_date.as_str().is_empty()
        || input.renter_name.as_str().is_empty() || input.rental_days == 0 {
        return false;
    }
    let brand_len: usize = input.motorcycle_brand.as_str().as_bytes().len();
    let date_len: usize = input.rental_date.as_str().as_bytes().len();
    let name_len: usize = input.renter_name.as_str().as_bytes().len();
    if brand_len > MAX_TEXT_BYTES || date_len > MAX_TEXT_BYTES - brand_len || name_len
        > MAX_TEXT_BYTES - brand_len - date_len {
        return false;
    }
    true
}

/// Builds the record stored for the given input under the given id and
/// update timestamp.
pub fn make_record(input: RentalInput, id: u64, updated_at: Option<u64>) -> (r: Rental)
    ensures
        r@ == record_of(input@, id, updated_at),
{
    Rental {
        id,
        motorcycle_brand: input.motorcycle_brand,
        daily_rate: input.daily_rate,
        rental_date: input.rental_date,
        renter_name: input.renter_name,
        rental_days: input.rental_days,
        updated_at,
    }
}

/// Why a service operation failed. Storage faults are not errors: they abort
/// the operation instead (see `storage`).
#[derive(Clone, Copy, Debug, PartialEq, Eq, Structural)]
pub enum Error {
    /// No record is stored under the given id.
    NotFound { id: u64 },
    /// A required text field is empty, the day count is zero, or the texts
    /// would overflow the storage bound.
    InvalidInput,
}

/// The decimal digit characters of `n`, most significant first: what `n`
/// renders as, with no sign, padding or separators.
pub open spec fn spec_decimal(n: u64) -> Seq<char>
    decreases n,
{
    if n < 10 {
        seq![spec_digit_char(n)]
    } else {
        spec_decimal(n / 10) + seq![spec_digit_char(n % 10)]
    }
}

/// The character for one decimal digit.
pub open spec fn spec_digit_char(d: u64) -> char
    recommends
        d < 10,
{
    if d == 0 {
        '0'
    } else if d == 1 {
        '1'
    } else if d == 2 {
        '2'
    } else if d == 3 {
        '3'
    } else if d == 4 {
        '4'
    } else if d == 5 {
        '5'
    } else if d == 6 {
        '6'
    } else if d == 7 {
        '7'
    } else if d == 8 {
        '8'
    } else {
        '9'
    }
}

/// Relies on `format!` with std's `Display` for `u64`: the value rendered as
/// its decimal digits, with no sign, padding or separators.
#[verifier::external_body]
fn render_u64(n: u64) -> (r: String)
    ensures
        r@ == spec_decimal(n),
{
    format!("{}", n)
}

impl Error {
    /// The human-readable message for this error.
    pub open spec fn spec_message(self) -> Seq<char> {
        match self {
            Error::NotFound { id } => "Rental with id="@ + spec_decimal(id) + " not found"@,
            Error::InvalidInput => "Some fields are empty or invalid"@,
        }
    }

    /// Renders the human-readable message: presentation only, the error's
    /// content is in its fields.
    pub fn message(&self) -> (r: String)
        ensures
            r@ == self.spec_message(),
    {
        match self {
            Error::NotFound { id } => {
                let mut s = "Rental with id=".to_owned();
                s.append(render_u64(*id).as_str());
                s.append(" not found");
                s
            },
            Error::InvalidInput => "Some fields are empty or invalid".to_owned(),
        }
    }
}

} // verus!
