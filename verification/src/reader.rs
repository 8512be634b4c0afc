//! Reading fixed-width fields and byte runs from the front of a stream.
//!
//! The reads themselves are nom's parsers for complete input. Each is
//! called through one function whose contract states, without proof, what
//! nom's source shows: when the parser succeeds, what it returns and what
//! input it leaves. The functions after them turn nom's error into this
//! library's [`DecodeError`] and are verified.

use crate::error::{DecodeError, Field};
use crate::wire::{u16_at, u32_at};
use vstd::prelude::*;

verus! {

/// `nom::Err`, the error of a nom parser; nothing is read from it.
#[verifier::external_type_specification]
#[verifier::external_body]
#[verifier::reject_recursive_types(E)]
pub struct ExNomErr<E>(nom::Err<E>);

/// `nom::error::Error`, what a failed nom parser reports; nothing is read
/// from it.
#[verifier::external_type_specification]
#[verifier::external_body]
#[verifier::reject_recursive_types(I)]
pub struct ExNomError<I>(nom::error::Error<I>);

/// `nom::number::complete::be_u16` on a byte slice: with two bytes or more
/// it returns the integer that the first two spell, most significant first,
/// and the input after them; with fewer it fails.
#[verifier::external_body]
fn nom_be_u16<'a>(input: &'a [u8]) -> (r: Result<
    (&'a [u8], u16),
    nom::Err<nom::error::Error<&'a [u8]>>,
>)
    ensures
        r is Ok <==> input@.len() >= 2,
        r matches Ok((rest, v)) ==> rest@ == input@.subrange(2, input@.len() as int) && v == u16_at(
            input@,
            0,
        ),
{
    nom::number::complete::be_u16(input)
}

/// `nom::number::complete::be_u32` on a byte slice: with four bytes or more
/// it returns the integer that the first four spell, most significant
/// first, and the input after them; with fewer it fails.
#[verifier::external_body]
fn nom_be_u32<'a>(input: &'a [u8]) -> (r: Result<
    (&'a [u8], u32),
    nom::Err<nom::error::Error<&'a [u8]>>,
>)
    ensures
        r is Ok <==> input@.len() >= 4,
        r matches Ok((rest, v)) ==> rest@ == input@.subrange(4, input@.len() as int) && v == u32_at(
            input@,
            0,
        ),
{
    nom::number::complete::be_u32(input)
}

/// `nom::bytes::complete::take` on a byte slice: with `count` bytes or more
/// it returns the input after the first `count` bytes and those bytes, in
/// this order; with fewer it fails.
#[verifier::external_body]
fn nom_take<'a>(count: usize, input: &'a [u8]) -> (r: Result<
    (&'a [u8], &'a [u8]),
    nom::Err<nom::error::Error<&'a [u8]>>,
>)
    ensures
        r is Ok <==> input@.len() >= count,
        r matches Ok((rest, taken)) ==> rest@ == input@.subrange(
            count as int,
            input@.len() as int,
        ) && taken@ == input@.subrange(0, count as int),
{
    nom::bytes::complete::take(count)(input)
}

/// Reads a big-endian 16-bit integer from the front of `input`. The error,
/// when fewer than two bytes are left, names `field` at `offset`.
pub fn read_u16<'a>(input: &'a [u8], field: Field, offset: usize) -> (r: Result<
    (&'a [u8], u16),
    DecodeError,
>)
    ensures
        input@.len() >= 2 ==> (r matches Ok((rest, v)) && rest@ == input@.skip(2) && v == u16_at(
            input@,
            0,
        )),
        input@.len() < 2 ==> r == Err::<(&[u8], u16), DecodeError>(
            DecodeError::TruncatedInput { field, offset },
        ),
{
    match nom_be_u16(input) {
        Ok(pair) => Ok(pair),
        Err(_) => Err(DecodeError::TruncatedInput { field, offset }),
    }
}

/// Reads a big-endian 32-bit integer from the front of `input`. The error,
/// when fewer than four bytes are left, names `field` at `offset`.
pub fn read_u32<'a>(input: &'a [u8], field: Field, offset: usize) -> (r: Result<
    (&'a [u8], u32),
    DecodeError,
>)
    ensures
        input@.len() >= 4 ==> (r matches Ok((rest, v)) && rest@ == input@.skip(4) && v == u32_at(
            input@,
            0,
        )),
        input@.len() < 4 ==> r == Err::<(&[u8], u32), DecodeError>(
            DecodeError::TruncatedInput { field, offset },
        ),
{
    match nom_be_u32(input) {
        Ok(pair) => Ok(pair),
        Err(_) => Err(DecodeError::TruncatedInput { field, offset }),
    }
}

/// Splits `count` bytes off the front of `input`, returning what is left and
/// the bytes split off. The error, when fewer than `count` bytes are left,
/// names `field` at `offset`.
pub fn read_bytes<'a>(count: usize, input: &'a [u8], field: Field, offset: usize) -> (r: Result<
    (&'a [u8], &'a [u8]),
    DecodeError,
>)
    ensures
        input@.len() >= count ==> (r matches Ok((rest, taken)) && rest@ == input@.skip(
            count as int,
        ) && taken@ == input@.take(count as int)),
        input@.len() < count ==> r == Err::<(&[u8], &[u8]), DecodeError>(
            DecodeError::TruncatedInput { field, offset },
        ),
{
    match nom_take(count, input) {
        Ok(pair) => Ok(pair),
        Err(_) => Err(DecodeError::TruncatedInput { field, offset }),
    }
}

} // verus!
