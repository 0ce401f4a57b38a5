use crate::entry::{Action, EntryData, RawEntry};
use crate::error::ExtractError;
use crate::error::ExtractError::CorruptArchive;
use std::borrow::Cow;
use std::io::Read;
use crate::plan::{actions_view, entries_view, plan_entries, plan_spec};
use crate::transform::ExtractConfig;
use vstd::prelude::*;

verus! {

/// What gzip decompression yields on a byte stream: `None` where the
/// stream is not well-formed gzip, otherwise the decompressed bytes.
/// The result depends on the input bytes alone.
pub uninterp spec fn gunzip(s: Seq<u8>) -> Option<Seq<u8>>;

/// What tar parsing yields on a byte stream: `None` where the stream is
/// not a well-formed tar container, otherwise its entries in on-disk
/// order.  The result depends on the input bytes alone.
pub uninterp spec fn tar_entries(s: Seq<u8>) -> Option<Seq<EntryData>>;

/// The decoded entries of a gzip-compressed tar stream; `None` where
/// either layer of the stream is malformed.
pub open spec fn tar_gz_entries(s: Seq<u8>) -> Option<Seq<EntryData>> {
    match gunzip(s) {
        Some(t) => tar_entries(t),
        None => None,
    }
}

/// Relies on flate2::read::GzDecoder over an in-memory slice: it either
/// decompresses the gzip stream in full or reports it malformed, as a
/// function of the input bytes alone.
#[verifier::external_body]
fn gzip_decode(input: &Vec<u8>) -> (r: Result<Vec<u8>, ExtractError>)
    ensures
        r is Ok <==> gunzip(input@) is Some,
        r matches Ok(v) ==> gunzip(input@) == Some(v@),
        r matches Err(e) ==> e == ExtractError::CorruptArchive,
{
    let mut out: Vec<u8> = Vec::new();
    let mut dec = flate2::read::GzDecoder::new(input.as_slice());
    match std::io::Read::read_to_end(&mut dec, &mut out) {
        Ok(_) => Ok(out),
        Err(_) => Err(ExtractError::CorruptArchive),
    }
}

/// Relies on tar::Archive over an in-memory slice: entries() walks the
/// container in on-disk order; each entry's declared path, type byte,
/// link name and content come from path_bytes, the header's entry_type,
/// link_name_bytes and reading the entry.  All of it is a function of
/// the input bytes alone.
#[verifier::external_body]
fn parse_tar(bytes: &Vec<u8>) -> (r: Result<Vec<RawEntry>, ExtractError>)
    ensures
        r is Ok <==> tar_entries(bytes@) is Some,
        r matches Ok(v) ==> tar_entries(bytes@) == Some(entries_view(v@)),
        r matches Err(e) ==> e == ExtractError::CorruptArchive,
{
    let mut ar = tar::Archive::new(bytes.as_slice());
    let mut out: Vec<RawEntry> = Vec::new();
    for ent in ar.entries().map_err(|_| CorruptArchive)? {
        let mut e = ent.map_err(|_| CorruptArchive)?;
        let type_byte = e.header().entry_type().as_byte();
        let mode = e.header().mode().map_err(|_| CorruptArchive)?;
        let path = e.path_bytes().into_owned();
        let link = e.link_name_bytes().map(Cow::into_owned);
        let mut data: Vec<u8> = Vec::new();
        e.read_to_end(&mut data).map_err(|_| CorruptArchive)?;
        out.push(RawEntry { path, type_byte, mode, link, data });
    }
    Ok(out)
}

/// Decode a gzip-compressed tar stream and compute its write plan: the
/// kept entries in on-disk order, with stripping and filtering applied
/// to their paths.  Fails exactly on streams that do not decode, and the
/// failure is always `CorruptArchive`.
pub fn plan_tar_gz(archive: &Vec<u8>, cfg: &ExtractConfig) -> (r: Result<
    Vec<Action>,
    ExtractError,
>)
    ensures
        r is Ok <==> tar_gz_entries(archive@) is Some,
        r matches Ok(p) ==> tar_gz_entries(archive@) matches Some(es) && actions_view(p@)
            == plan_spec(es, cfg@),
        r matches Err(e) ==> e == ExtractError::CorruptArchive && tar_gz_entries(archive@) is None,
{
    let tarball = match gzip_decode(archive) {
        Ok(t) => t,
        Err(e) => {
            return Err(e);
        },
    };
    let entries = match parse_tar(&tarball) {
        Ok(es) => es,
        Err(e) => {
            return Err(e);
        },
    };
    Ok(plan_entries(entries, cfg))
}

} // verus!
