//! The names under which inputs are kept on disk.
use vstd::prelude::*;
use vstd::string::StringExecFns;
use crate::depot::digest::{md5_digest, md5_of};
use crate::text::{decimal_digits, hex_digits, hex_of_bytes, push_decimal, push_hex, push_hex_bytes};

verus! {

/// The name of the file of input `id`: `id_` and the number in decimal.
pub open spec fn input_name_of(id: nat) -> Seq<char> {
    "id_"@ + decimal_digits(id)
}

/// The name of the file of an amplifying input: `amp_`, the factor as the
/// caller rendered it, the path's hash and the digest of the input in
/// hexadecimal, joined by `_`.
pub open spec fn amp_name_of(factor: Seq<char>, path: u64, digest: Seq<u8>) -> Seq<char> {
    "amp_"@ + factor + "_"@ + hex_digits(path as nat) + "_"@ + hex_of_bytes(digest)
}

/// The name of the file of input `id`.
pub fn get_file_name(id: usize) -> (name: String)
    ensures
        name@ == input_name_of(id as nat),
{
    let mut name = String::from_str("id_");
    push_decimal(&mut name, id as u64);
    name
}

/// The name of the file of an amplifying input, from the rendered factor,
/// the path's hash and the input's digest.
pub fn amp_file_name_from(factor: &str, path: u64, digest: &[u8]) -> (name: String)
    ensures
        name@ == amp_name_of(factor@, path, digest@),
{
    let mut name = String::from_str("amp_");
    name.append(factor);
    name.append("_");
    push_hex(&mut name, path);
    name.append("_");
    push_hex_bytes(&mut name, digest);
    name
}

/// The name of the file of the amplifying input `buf`.
pub fn amp_file_name(factor: &str, path: u64, buf: &[u8]) -> (name: String)
    ensures
        name@ == amp_name_of(factor@, path, md5_of(buf@)),
{
    let digest = md5_digest(buf);
    amp_file_name_from(factor, path, digest.as_slice())
}

} // verus!
