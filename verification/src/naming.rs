//! Part kinds, serialization formats, and the fixed naming convention.
//!
//! Every backend addresses a part at `{prefix}/{part}.{ext}`, where the
//! prefix is the backend's root directory or the aggregate's identifier.
//! The format, and with it the suffix, is a fixed function of the part:
//! descriptor and data use the key/value format (`name = value`, suffix
//! `toml`), cache and the layer-2 extension use the colon format
//! (`name: value`, suffix `yaml`). Keeping this rule identical across
//! backends is what lets one backend read what another wrote.

use crate::bytes::extend_from;
use vstd::prelude::*;

verus! {

/// One of the four independently persisted parts of a wallet.
#[derive(Debug, Clone, Copy, PartialEq, Eq, Structural)]
pub enum Part {
    Descr,
    Data,
    Cache,
    Layer2,
}

/// One of the two structured-text formats.
#[derive(Debug, Clone, Copy, PartialEq, Eq, Structural)]
pub enum Format {
    /// `name = value` lines, suffix `toml`.
    Toml,
    /// `name: value` lines, suffix `yaml`.
    Yaml,
}

/// The fixed part-to-format selection rule.
pub open spec fn part_format(p: Part) -> Format {
    match p {
        Part::Descr => Format::Toml,
        Part::Data => Format::Toml,
        Part::Cache => Format::Yaml,
        Part::Layer2 => Format::Yaml,
    }
}

/// Which format a part is serialized with.
pub fn format_of(p: Part) -> (f: Format)
    ensures
        f == part_format(p),
{
    match p {
        Part::Descr => Format::Toml,
        Part::Data => Format::Toml,
        Part::Cache => Format::Yaml,
        Part::Layer2 => Format::Yaml,
    }
}

/// The file-name stem of a part: `descr`, `data`, `cache` or `layer2`.
pub open spec fn part_name(p: Part) -> Seq<u8> {
    match p {
        Part::Descr => seq![100u8, 101u8, 115u8, 99u8, 114u8],
        Part::Data => seq![100u8, 97u8, 116u8, 97u8],
        Part::Cache => seq![99u8, 97u8, 99u8, 104u8, 101u8],
        Part::Layer2 => seq![108u8, 97u8, 121u8, 101u8, 114u8, 50u8],
    }
}

/// The file-name suffix of a format: `toml` or `yaml`.
pub open spec fn format_ext(f: Format) -> Seq<u8> {
    match f {
        Format::Toml => seq![116u8, 111u8, 109u8, 108u8],
        Format::Yaml => seq![121u8, 97u8, 109u8, 108u8],
    }
}

/// The key a part lives under: `{prefix}/{part}.{ext}`.
pub open spec fn part_key_spec(prefix: Seq<u8>, p: Part) -> Seq<u8> {
    prefix + seq![47u8] + part_name(p) + seq![46u8] + format_ext(part_format(p))
}

fn part_name_bytes(p: Part) -> (r: Vec<u8>)
    ensures
        r@ == part_name(p),
{
    let mut r: Vec<u8> = Vec::new();
    match p {
        Part::Descr => {
            r.push(100);
            r.push(101);
            r.push(115);
            r.push(99);
            r.push(114);
        },
        Part::Data => {
            r.push(100);
            r.push(97);
            r.push(116);
            r.push(97);
        },
        Part::Cache => {
            r.push(99);
            r.push(97);
            r.push(99);
            r.push(104);
            r.push(101);
        },
        Part::Layer2 => {
            r.push(108);
            r.push(97);
            r.push(121);
            r.push(101);
            r.push(114);
            r.push(50);
        },
    }
    assert(r@ =~= part_name(p));
    r
}

fn format_ext_bytes(f: Format) -> (r: Vec<u8>)
    ensures
        r@ == format_ext(f),
{
    let mut r: Vec<u8> = Vec::new();
    match f {
        Format::Toml => {
            r.push(116);
            r.push(111);
            r.push(109);
            r.push(108);
        },
        Format::Yaml => {
            r.push(121);
            r.push(97);
            r.push(109);
            r.push(108);
        },
    }
    assert(r@ =~= format_ext(f));
    r
}

/// Builds the key a part lives under: `{prefix}/{part}.{ext}`.
pub fn part_key(prefix: &[u8], p: Part) -> (k: Vec<u8>)
    ensures
        k@ == part_key_spec(prefix@, p),
{
    let mut k: Vec<u8> = Vec::new();
    extend_from(&mut k, prefix);
    k.push(47);
    let name = part_name_bytes(p);
    extend_from(&mut k, name.as_slice());
    k.push(46);
    let ext = format_ext_bytes(format_of(p));
    extend_from(&mut k, ext.as_slice());
    assert(k@ =~= part_key_spec(prefix@, p));
    k
}

} // verus!
