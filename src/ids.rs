use vstd::arithmetic::power2::pow2;
use vstd::prelude::*;
use vstd::string::*;

verus! {

/// Lower-case hexadecimal digit of `n`, for `0 <= n < 16`.
pub open spec fn hex_digit(n: int) -> char {
    "0123456789abcdef"@[n]
}

/// The `j`-th hexadecimal digit of `id`, counted from the most significant.
pub open spec fn id_nibble(id: u128, j: int) -> int {
    (id as int / pow2((4 * (31 - j)) as nat) as int) % 16
}

/// Which hexadecimal digit of the id stands at text position `i`
/// (positions 8, 13, 18 and 23 hold hyphens).
pub open spec fn digit_at(i: int) -> int {
    if i < 8 {
        i
    } else if i < 13 {
        i - 1
    } else if i < 18 {
        i - 2
    } else if i < 23 {
        i - 3
    } else {
        i - 4
    }
}

/// The canonical text of a UUID: its 32 lower-case hexadecimal digits, most
/// significant first, in groups of 8, 4, 4, 4 and 12 joined by hyphens.
pub open spec fn uuid_text(id: u128) -> Seq<char> {
    Seq::new(
        36,
        |i: int|
            if i == 8 || i == 13 || i == 18 || i == 23 {
                '-'
            } else {
                hex_digit(id_nibble(id, digit_at(i)))
            },
    )
}

/// Relies on `uuid::Uuid::new_v4`: a fresh random identifier.
/// Nothing is known of the value it returns.
#[verifier::external_body]
pub(crate) fn new_id() -> (r: u128) {
    uuid::Uuid::new_v4().as_u128()
}

/// Relies on `uuid::Uuid::from_u128` (big-endian bytes) and the `Display`
/// impl of `uuid::Uuid` (through `to_string`), which writes the hyphenated
/// lower-case form.
#[verifier::external_body]
pub(crate) fn id_text(id: u128) -> (r: String)
    ensures
        r@ == uuid_text(id),
{
    uuid::Uuid::from_u128(id).to_string()
}

/// Directory that holds every file of the map with the given id text.
pub fn map_directory(id: &str) -> (r: String)
    ensures
        r@ == "maps/"@ + id@ + "/"@,
{
    let mut path = String::from_str("maps/");
    path.append(id);
    path.append("/");
    path
}

/// Metadata file of the map with the given id text, inside `dir`.
pub fn map_file(dir: &str, id: &str) -> (r: String)
    ensures
        r@ == dir@ + id@ + ".map"@,
{
    let mut path = String::from_str(dir);
    path.append(id);
    path.append(".map");
    path
}

/// Tile file of the region with the given id text, inside `dir`.
pub fn region_file(dir: &str, id: &str) -> (r: String)
    ensures
        r@ == dir@ + id@ + ".region"@,
{
    let mut path = String::from_str(dir);
    path.append(id);
    path.append(".region");
    path
}

} // verus!
