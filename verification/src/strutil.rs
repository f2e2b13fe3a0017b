use vstd::prelude::*;

verus! {

/// Relies on `format!`: joining two string slices yields exactly the
/// characters of the first followed by those of the second.
#[verifier::external_body]
pub fn concat_str(a: &str, b: &str) -> (r: String)
    ensures
        r@ == a@ + b@,
{
    format!("{a}{b}")
}

/// Relies on `String::from_utf8_lossy`: a sequence of ASCII bytes decodes to
/// the characters of the same values.
#[verifier::external_body]
pub fn lossy_string(v: &Vec<u8>) -> (r: String)
    ensures
        (forall|i: int| 0 <= i < v@.len() ==> v@[i] < 128) ==> r@ == v@.map_values(
            |b: u8| b as char,
        ),
{
    String::from_utf8_lossy(v).into_owned()
}

} // verus!
