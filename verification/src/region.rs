//! Storage regions and the shape of the keys and values each of them holds.

use vstd::prelude::*;
use vstd::string::StringExecFns;

verus! {

/// One past the last region number of the storage protocol.
pub const REGION_END: u32 = 14;

/// The first region that has no column family of its own in the store.
pub const FIRST_UNSTORED_REGION: u32 = 11;

/// `Regions::Button` of the storage protocol, as a region number.
/// The protocol source gives it the value 14: it closes the list of regions.
#[verifier::external_body]
fn region_end() -> (r: u32)
    ensures
        r == REGION_END,
{
    cita_cloud_proto::storage::Regions::Button as u8 as u32
}

/// `Regions::FullBlock` of the storage protocol, as a region number.
/// The protocol source gives it the value 11.
#[verifier::external_body]
fn full_block_region() -> (r: u32)
    ensures
        r == FIRST_UNSTORED_REGION,
{
    cita_cloud_proto::storage::Regions::FullBlock as u8 as u32
}

/// `Regions::Global` of the storage protocol, as a region number.
/// The protocol source gives it the value 0.
#[verifier::external_body]
pub(crate) fn global_region() -> (r: u32)
    ensures
        r == 0,
{
    i32::from(cita_cloud_proto::storage::Regions::Global) as u32
}

/// The regions whose keys are 32-byte hashes; every other region is keyed
/// by an 8-byte big-endian number.
pub open spec fn hash_keyed(region: u32) -> bool {
    region == 1 || region == 7 || region == 8 || region == 9
}

/// The length a key of `region` must have.
pub open spec fn key_len(region: u32) -> nat {
    if hash_keyed(region) {
        32
    } else {
        8
    }
}

pub open spec fn spec_check_region(region: u32) -> bool {
    region < REGION_END
}

pub open spec fn spec_check_key(region: u32, key: Seq<u8>) -> bool {
    key.len() == key_len(region)
}

/// Regions 4 and 6 hold 32-byte hashes, regions 7 and 8 hold 8-byte
/// heights; the other regions take values of any length.
pub open spec fn spec_check_value(region: u32, value: Seq<u8>) -> bool {
    if region == 4 || region == 6 {
        value.len() == 32
    } else if region == 7 || region == 8 {
        value.len() == 8
    } else {
        true
    }
}

/// Whether `region` is one of the regions of the storage protocol.
pub fn check_region(region: u32) -> (ok: bool)
    ensures
        ok == spec_check_region(region),
{
    region < region_end()
}

/// Whether `key` has the length that keys of `region` have.
pub fn check_key(region: u32, key: &[u8]) -> (ok: bool)
    ensures
        ok == spec_check_key(region, key@),
{
    if region == 1 || region == 7 || region == 8 || region == 9 {
        key.len() == 32
    } else {
        key.len() == 8
    }
}

/// Whether `value` has the length that values of `region` have.
pub fn check_value(region: u32, value: &[u8]) -> (ok: bool)
    ensures
        ok == spec_check_value(region, value@),
{
    if region == 4 || region == 6 {
        value.len() == 32
    } else if region == 7 || region == 8 {
        value.len() == 8
    } else {
        true
    }
}

/// The decimal digit `d`, for `d < 10`.
pub open spec fn digit_char(d: nat) -> char {
    (48 + d) as char
}

/// The decimal representation of `n`: no sign, no leading zeros.
pub open spec fn decimal(n: nat) -> Seq<char>
    decreases n,
{
    if n < 10 {
        seq![digit_char(n)]
    } else {
        decimal(n / 10).push(digit_char(n % 10))
    }
}

/// The decimal digit `d`, for `d < 10`, as a string.
fn digit_str(d: u32) -> (s: &'static str)
    requires
        d < 10,
    ensures
        s@ == seq![digit_char(d as nat)],
{
    proof {
        reveal_strlit("0");
        reveal_strlit("1");
        reveal_strlit("2");
        reveal_strlit("3");
        reveal_strlit("4");
        reveal_strlit("5");
        reveal_strlit("6");
        reveal_strlit("7");
        reveal_strlit("8");
        reveal_strlit("9");
    }
    let s = match d {
        0 => "0",
        1 => "1",
        2 => "2",
        3 => "3",
        4 => "4",
        5 => "5",
        6 => "6",
        7 => "7",
        8 => "8",
        _ => "9",
    };
    assert(s@ =~= seq![digit_char(d as nat)]);
    s
}

/// `n` written in decimal.
fn decimal_string(n: u32) -> (s: String)
    ensures
        s@ == decimal(n as nat),
    decreases n,
{
    if n < 10 {
        String::from_str(digit_str(n))
    } else {
        let mut s = decimal_string(n / 10);
        s.append(digit_str(n % 10));
        s
    }
}

/// The name of the column family that holds the entries of `region`.
pub(crate) fn column_family_name(region: u32) -> (name: String)
    ensures
        name@ == decimal(region as nat),
{
    decimal_string(region)
}

/// The names of the column families the store is opened with: one for each
/// region below `Regions::FullBlock`, in order.
pub fn column_family_names() -> (names: Vec<String>)
    ensures
        names.len() == FIRST_UNSTORED_REGION,
        forall|i: int| 0 <= i < names.len() ==> (#[trigger] names[i])@ == decimal(i as nat),
{
    let end = full_block_region();
    let mut names: Vec<String> = Vec::new();
    let mut i: u32 = 0;
    while i < end
        invariant
            end == FIRST_UNSTORED_REGION,
            i <= end,
            names.len() == i,
            forall|j: int| 0 <= j < names.len() ==> (#[trigger] names[j])@ == decimal(j as nat),
        decreases end - i,
    {
        names.push(decimal_string(i));
        i = i + 1;
    }
    names
}

/// Whether the store keeps a column family for `region`: the families are
/// those of `column_family_names`.
pub open spec fn spec_has_column_family(region: u32) -> bool {
    region < FIRST_UNSTORED_REGION
}

pub(crate) fn has_column_family(region: u32) -> (r: bool)
    ensures
        r == spec_has_column_family(region),
{
    region < full_block_region()
}

/// The number a string of decimal digits stands for.
pub open spec fn digits_value(s: Seq<char>) -> int
    decreases s.len(),
{
    if s.len() == 0 {
        0
    } else {
        digits_value(s.drop_last()) * 10 + (s.last() as int - 48)
    }
}

/// The decimal representation of `n` is made of the digits 0 to 9, stands
/// for `n`, and has no leading zero (zero itself is the single digit 0).
pub proof fn lemma_decimal(n: nat)
    ensures
        decimal(n).len() >= 1,
        forall|i: int| 0 <= i < decimal(n).len() ==> 48 <= #[trigger] (decimal(n)[i] as int) <= 57,
        digits_value(decimal(n)) == n,
        n == 0 <==> decimal(n) == seq!['0'],
        n != 0 ==> decimal(n)[0] != '0',
    decreases n,
{
    if n < 10 {
        assert(decimal(n).drop_last() =~= Seq::<char>::empty());
        assert(digit_char(n) as int == 48 + n);
        assert(decimal(n).last() == digit_char(n));
        assert(digits_value(decimal(n)) == digits_value(decimal(n).drop_last()) * 10 + (decimal(n).last() as int - 48));
        assert(digits_value(Seq::<char>::empty()) == 0);
        if n == 0 {
            assert(decimal(0) =~= seq!['0']);
        }
    } else {
        lemma_decimal(n / 10);
        let d = decimal(n / 10);
        assert(decimal(n).drop_last() =~= d);
        assert(digit_char((n % 10) as nat) as int == 48 + n % 10);
        assert(decimal(n).last() == digit_char((n % 10) as nat));
        assert(digits_value(decimal(n)) == digits_value(d) * 10 + (decimal(n).last() as int - 48));
        assert((n / 10) * 10 + n % 10 == n);
        assert(decimal(n)[0] == d[0]);
        assert forall|i: int| 0 <= i < decimal(n).len() implies 48 <= #[trigger] (decimal(n)[i] as int) <= 57 by {
            if i < d.len() {
                assert(decimal(n)[i] == d[i]);
            }
        }
        assert(decimal(n) != seq!['0']) by {
            assert(decimal(n).len() >= 2);
        }
    }
}

} // verus!
