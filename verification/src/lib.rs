pub mod bgfx_shader;
pub mod common;
pub mod crypto;
pub mod error;
pub mod pass;
pub mod property_field;
pub mod sampler_definition;
pub mod schema;
pub mod shader;
pub mod table;

use vstd::prelude::*;
use crate::common::{
    sp_u8, sp_u16, sp_u32, sp_u64, sp_string, sp_opt_string, sp_byte_array, se_u8, se_u16, se_u32,
    se_u64, se_string, se_opt_string, is_utf8, read_u8, read_u16, read_u32, read_u64, read_string,
    read_opt_string, read_byte_array, write_u8, write_u16, write_u32, write_u64, write_raw,
    write_string, optional_write, copy_range, vec_u8_eq, lemma_u8_rt, lemma_u16_rt, lemma_u32_rt,
    lemma_u64_rt, lemma_string_rt, lemma_opt_string_rt, lemma_ascii_is_utf8, seq_assoc,
};
use crate::crypto::{gcm_plaintext, aes256_gcm_decrypt};
use crate::error::{ReadError, WriteError, TagKind};
use crate::pass::{Pass, PassView};
use crate::property_field::{PropertyField, PropertyFieldView};
use crate::sampler_definition::{SamplerDefinition, SamplerDefinitionView};
use crate::schema::{MinecraftVersion, all_versions_spec, all_versions_newest_first};
use crate::table::{
    TableEntry, sp_table, se_table, vw_tbl, norm_tbl, wf_tbl, lemma_table_rt, lemma_table_norm,
    read_table, write_table,
};

verus! {

/// The 64-bit frame word at both ends of a file.
pub const MAGIC: u64 = 0xA11DA1A;

pub const ENCRYPTION_NONE_TAG: u32 = 0x4E4F4E45;

pub const ENCRYPTION_SMPL_TAG: u32 = 0x534D504C;

pub const ENCRYPTION_KYPR_TAG: u32 = 0x4B595052;

/// The banner string that follows the opening magic.
pub open spec fn spec_banner() -> Seq<u8> {
    seq![0x52u8, 0x65u8, 0x6Eu8, 0x64u8, 0x65u8, 0x72u8, 0x44u8, 0x72u8, 0x61u8, 0x67u8, 0x6Fu8, 0x6Eu8, 0x2Eu8, 0x43u8, 0x6Fu8, 0x6Du8, 0x70u8, 0x69u8, 0x6Cu8, 0x65u8, 0x64u8, 0x4Du8, 0x61u8, 0x74u8, 0x65u8, 0x72u8, 0x69u8, 0x61u8, 0x6Cu8, 0x44u8, 0x65u8, 0x66u8, 0x69u8, 0x6Eu8, 0x69u8, 0x74u8, 0x69u8, 0x6Fu8, 0x6Eu8]
}

/// The material name whose files never carry an override section.
pub open spec fn spec_core_builtins() -> Seq<u8> {
    seq![0x43u8, 0x6Fu8, 0x72u8, 0x65u8, 0x2Fu8, 0x42u8, 0x75u8, 0x69u8, 0x6Cu8, 0x74u8, 0x69u8, 0x6Eu8, 0x73u8]
}

pub fn banner_bytes() -> (r: Vec<u8>)
    ensures
        r@ == spec_banner(),
{
    let mut r: Vec<u8> = Vec::new();
    r.push(0x52);
    r.push(0x65);
    r.push(0x6E);
    r.push(0x64);
    r.push(0x65);
    r.push(0x72);
    r.push(0x44);
    r.push(0x72);
    r.push(0x61);
    r.push(0x67);
    r.push(0x6F);
    r.push(0x6E);
    r.push(0x2E);
    r.push(0x43);
    r.push(0x6F);
    r.push(0x6D);
    r.push(0x70);
    r.push(0x69);
    r.push(0x6C);
    r.push(0x65);
    r.push(0x64);
    r.push(0x4D);
    r.push(0x61);
    r.push(0x74);
    r.push(0x65);
    r.push(0x72);
    r.push(0x69);
    r.push(0x61);
    r.push(0x6C);
    r.push(0x44);
    r.push(0x65);
    r.push(0x66);
    r.push(0x69);
    r.push(0x6E);
    r.push(0x69);
    r.push(0x74);
    r.push(0x69);
    r.push(0x6F);
    r.push(0x6E);
    proof {
        assert(r@ =~= spec_banner());
    }
    r
}

pub fn is_core_builtins(name: &Vec<u8>) -> (r: bool)
    ensures
        r == (name@ == spec_core_builtins()),
{
    let mut cb: Vec<u8> = Vec::new();
    cb.push(0x43);
    cb.push(0x6F);
    cb.push(0x72);
    cb.push(0x65);
    cb.push(0x2F);
    cb.push(0x42);
    cb.push(0x75);
    cb.push(0x69);
    cb.push(0x6C);
    cb.push(0x74);
    cb.push(0x69);
    cb.push(0x6E);
    cb.push(0x73);
    proof {
        assert(cb@ =~= spec_core_builtins());
    }
    vec_u8_eq(name, &cb)
}

// ---------------------------------------------------------------------
// EncryptionVariant
// ---------------------------------------------------------------------

#[derive(Clone, Copy, PartialEq, Eq, Structural, Debug)]
pub enum EncryptionVariant {
    NoEncryption,
    SimplePassphrase,
    KeyPair,
}

impl EncryptionVariant {
    pub open spec fn as_u32_spec(&self) -> u32 {
        match self {
            EncryptionVariant::NoEncryption => 0x4E4F4E45,
            EncryptionVariant::SimplePassphrase => 0x534D504C,
            EncryptionVariant::KeyPair => 0x4B595052,
        }
    }

    #[verifier::when_used_as_spec(as_u32_spec)]
    pub fn as_u32(&self) -> (r: u32)
        ensures
            r == self.as_u32_spec(),
    {
        match self {
            EncryptionVariant::NoEncryption => 0x4E4F4E45,
            EncryptionVariant::SimplePassphrase => 0x534D504C,
            EncryptionVariant::KeyPair => 0x4B595052,
        }
    }
}

pub open spec fn sp_encryption_variant(s: Seq<u8>) -> Result<(EncryptionVariant, Seq<u8>), ReadError> {
    match sp_u32(s) {
        Ok((w, s1)) => if w == ENCRYPTION_NONE_TAG {
            Ok((EncryptionVariant::NoEncryption, s1))
        } else if w == ENCRYPTION_SMPL_TAG {
            Ok((EncryptionVariant::SimplePassphrase, s1))
        } else if w == ENCRYPTION_KYPR_TAG {
            Ok((EncryptionVariant::KeyPair, s1))
        } else {
            Err(ReadError::InvalidTag { which: TagKind::Encryption, value: w })
        },
        Err(e) => Err(e),
    }
}

pub fn read_encryption_variant(data: &Vec<u8>, off: usize) -> (r: Result<
    (EncryptionVariant, usize),
    ReadError,
>)
    requires
        off <= data@.len(),
    ensures
        match r {
            Ok((t, off2)) => off <= off2 <= data@.len() && sp_encryption_variant(
                data@.skip(off as int),
            ) == Ok::<_, ReadError>((t, data@.skip(off2 as int))),
            Err(e) => sp_encryption_variant(data@.skip(off as int)) == Err::<
                (EncryptionVariant, Seq<u8>),
                _,
            >(e),
        },
{
    match read_u32(data, off) {
        Ok((w, o1)) => if w == ENCRYPTION_NONE_TAG {
            Ok((EncryptionVariant::NoEncryption, o1))
        } else if w == ENCRYPTION_SMPL_TAG {
            Ok((EncryptionVariant::SimplePassphrase, o1))
        } else if w == ENCRYPTION_KYPR_TAG {
            Ok((EncryptionVariant::KeyPair, o1))
        } else {
            Err(ReadError::InvalidTag { which: TagKind::Encryption, value: w })
        },
        Err(e) => Err(e),
    }
}

pub proof fn lemma_encryption_variant_rt(t: EncryptionVariant, rest: Seq<u8>)
    ensures
        sp_encryption_variant(se_u32(t.as_u32_spec()) + rest) == Ok::<_, ReadError>((t, rest)),
{
    lemma_u32_rt(t.as_u32_spec(), rest);
}

// ---------------------------------------------------------------------
// The material container
// ---------------------------------------------------------------------

/// The root of a file: name, optional parent, the sampler, property,
/// override and pass tables, and the decoded header words.
#[derive(Debug)]
pub struct CompiledMaterialDefinition {
    pub version: u64,
    pub encryption_variant: EncryptionVariant,
    pub name: Vec<u8>,
    pub parent_name: Option<Vec<u8>>,
    pub sampler_definitions: Vec<(Vec<u8>, SamplerDefinition)>,
    pub property_fields: Vec<(Vec<u8>, PropertyField)>,
    pub overrides: Option<Vec<(Vec<u8>, Vec<u8>)>>,
    pub passes: Vec<(Vec<u8>, Pass)>,
}

#[verifier::ext_equal]
pub ghost struct MaterialView {
    pub version: u64,
    pub encryption_variant: EncryptionVariant,
    pub name: Seq<u8>,
    pub parent_name: Option<Seq<u8>>,
    pub sampler_definitions: Seq<(Seq<u8>, SamplerDefinitionView)>,
    pub property_fields: Seq<(Seq<u8>, PropertyFieldView)>,
    pub overrides: Option<Seq<(Seq<u8>, Seq<u8>)>>,
    pub passes: Seq<(Seq<u8>, PassView)>,
}

impl View for CompiledMaterialDefinition {
    type V = MaterialView;

    open spec fn view(&self) -> MaterialView {
        MaterialView {
            version: self.version,
            encryption_variant: self.encryption_variant,
            name: self.name@,
            parent_name: match self.parent_name {
                Some(p) => Some(p@),
                None => None,
            },
            sampler_definitions: vw_tbl::<(Vec<u8>, SamplerDefinition)>(self.sampler_definitions@),
            property_fields: vw_tbl::<(Vec<u8>, PropertyField)>(self.property_fields@),
            overrides: match self.overrides {
                Some(o) => Some(vw_tbl::<(Vec<u8>, Vec<u8>)>(o@)),
                None => None,
            },
            passes: vw_tbl::<(Vec<u8>, Pass)>(self.passes@),
        }
    }
}

/// Does a file at schema `v` for material `name` carry the override
/// section?
pub open spec fn overrides_gate(v: MinecraftVersion, name: Seq<u8>) -> bool {
    v.rank_spec() >= MinecraftVersion::V1_21_110.rank_spec() && name != spec_core_builtins()
}

// ---------------------------------------------------------------------
// Body grammar
// ---------------------------------------------------------------------

pub open spec fn sp_body_front(s: Seq<u8>, v: MinecraftVersion) -> Result<
    ((Seq<u8>, Option<Seq<u8>>, Seq<(Seq<u8>, SamplerDefinitionView)>), Seq<u8>),
    ReadError,
> {
    match sp_string(s) {
        Ok((name, s1)) => match sp_opt_string(s1) {
            Ok((parent, s2)) => match sp_u8(s2) {
                Ok((n, s3)) => match sp_table::<(Vec<u8>, SamplerDefinition)>(s3, n as nat, v) {
                    Ok((samplers, s4)) => Ok(((name, parent, samplers), s4)),
                    Err(e) => Err(e),
                },
                Err(e) => Err(e),
            },
            Err(e) => Err(e),
        },
        Err(e) => Err(e),
    }
}

/// The override table is present exactly when `gated` holds.
pub open spec fn sp_overrides(s: Seq<u8>, v: MinecraftVersion, gated: bool) -> Result<
    (Option<Seq<(Seq<u8>, Seq<u8>)>>, Seq<u8>),
    ReadError,
> {
    if gated {
        match sp_u16(s) {
            Ok((n, s1)) => match sp_table::<(Vec<u8>, Vec<u8>)>(s1, n as nat, v) {
                Ok((tbl, s2)) => Ok((Some(tbl), s2)),
                Err(e) => Err(e),
            },
            Err(e) => Err(e),
        }
    } else {
        Ok((None, s))
    }
}

pub open spec fn sp_body_back(s: Seq<u8>, v: MinecraftVersion, gated: bool) -> Result<
    (
        (
            Seq<(Seq<u8>, PropertyFieldView)>,
            Option<Seq<(Seq<u8>, Seq<u8>)>>,
            Seq<(Seq<u8>, PassView)>,
        ),
        Seq<u8>,
    ),
    ReadError,
> {
    match sp_u16(s) {
        Ok((pn, s1)) => match sp_table::<(Vec<u8>, PropertyField)>(s1, pn as nat, v) {
            Ok((props, s2)) => match sp_overrides(s2, v, gated) {
                Ok((ovr, s3)) => match sp_u16(s3) {
                    Ok((cn, s4)) => match sp_table::<(Vec<u8>, Pass)>(s4, cn as nat, v) {
                        Ok((passes, s5)) => match sp_u64(s5) {
                            Ok((m, s6)) => if m != MAGIC {
                                Err(ReadError::BadMagic)
                            } else {
                                Ok(((props, ovr, passes), s6))
                            },
                            Err(e) => Err(e),
                        },
                        Err(e) => Err(e),
                    },
                    Err(e) => Err(e),
                },
                Err(e) => Err(e),
            },
            Err(e) => Err(e),
        },
        Err(e) => Err(e),
    }
}

pub open spec fn sp_body(s: Seq<u8>, v: MinecraftVersion) -> Result<
    (
        (
            (Seq<u8>, Option<Seq<u8>>, Seq<(Seq<u8>, SamplerDefinitionView)>),
            (
                Seq<(Seq<u8>, PropertyFieldView)>,
                Option<Seq<(Seq<u8>, Seq<u8>)>>,
                Seq<(Seq<u8>, PassView)>,
            ),
        ),
        Seq<u8>,
    ),
    ReadError,
> {
    match sp_body_front(s, v) {
        Ok((f, s4)) => match sp_body_back(s4, v, overrides_gate(v, f.0)) {
            Ok((b, s6)) => Ok(((f, b), s6)),
            Err(e) => Err(e),
        },
        Err(e) => Err(e),
    }
}

pub open spec fn mk_material(
    version: u64,
    ev: EncryptionVariant,
    f: (Seq<u8>, Option<Seq<u8>>, Seq<(Seq<u8>, SamplerDefinitionView)>),
    b: (
        Seq<(Seq<u8>, PropertyFieldView)>,
        Option<Seq<(Seq<u8>, Seq<u8>)>>,
        Seq<(Seq<u8>, PassView)>,
    ),
) -> MaterialView {
    MaterialView {
        version,
        encryption_variant: ev,
        name: f.0,
        parent_name: f.1,
        sampler_definitions: f.2,
        property_fields: b.0,
        overrides: b.1,
        passes: b.2,
    }
}

/// The whole file. The body is read either in place (`NONE`) or from
/// the plaintext of the `KYPR` envelope; `SMPL` is refused.
pub open spec fn sp_cmd(s: Seq<u8>, v: MinecraftVersion) -> Result<
    (MaterialView, Seq<u8>),
    ReadError,
> {
    match sp_u64(s) {
        Ok((magic, s1)) => if magic != MAGIC {
            Err(ReadError::BadMagic)
        } else {
            match sp_string(s1) {
                Ok((bn, s2)) => if bn != spec_banner() {
                    Err(ReadError::BadBanner)
                } else {
                    match sp_u64(s2) {
                        Ok((version, s3)) => if version == 23 && v != MinecraftVersion::V26_0_24 {
                            Err(ReadError::WrongVersion)
                        } else {
                            match sp_encryption_variant(s3) {
                                Ok((ev, s4)) => match ev {
                                    EncryptionVariant::NoEncryption => match sp_body(s4, v) {
                                        Ok(((f, b), s5)) => Ok((mk_material(version, ev, f, b), s5)),
                                        Err(e) => Err(e),
                                    },
                                    EncryptionVariant::SimplePassphrase => Err(
                                        ReadError::UnsupportedEncryption,
                                    ),
                                    EncryptionVariant::KeyPair => sp_cmd_encrypted(
                                        s4,
                                        v,
                                        version,
                                    ),
                                },
                                Err(e) => Err(e),
                            }
                        },
                        Err(e) => Err(e),
                    }
                },
                Err(e) => Err(e),
            }
        },
        Err(e) => Err(e),
    }
}

// ---------------------------------------------------------------------
// Emission
// ---------------------------------------------------------------------

pub open spec fn se_body_front(t: MaterialView, v: MinecraftVersion) -> Result<Seq<u8>, WriteError> {
    match se_string(t.name) {
        Ok(nb) => match se_opt_string(t.parent_name) {
            Ok(pb) => if t.sampler_definitions.len() > 255 {
                Err(WriteError::IntOverflow)
            } else {
                match se_table::<(Vec<u8>, SamplerDefinition)>(t.sampler_definitions, v) {
                    Ok(sb) => Ok(nb + pb + se_u8(t.sampler_definitions.len() as u8) + sb),
                    Err(e) => Err(e),
                }
            },
            Err(e) => Err(e),
        },
        Err(e) => Err(e),
    }
}

/// When the section is gated in, an absent table is emitted with a
/// zero count.
pub open spec fn se_overrides(
    o: Option<Seq<(Seq<u8>, Seq<u8>)>>,
    v: MinecraftVersion,
    gated: bool,
) -> Result<Seq<u8>, WriteError> {
    if gated {
        let tbl = match o {
            Some(x) => x,
            None => Seq::empty(),
        };
        if tbl.len() > 0xFFFF {
            Err(WriteError::IntOverflow)
        } else {
            match se_table::<(Vec<u8>, Vec<u8>)>(tbl, v) {
                Ok(b) => Ok(se_u16(tbl.len() as u16) + b),
                Err(e) => Err(e),
            }
        }
    } else {
        Ok(Seq::empty())
    }
}

pub open spec fn norm_overrides(o: Option<Seq<(Seq<u8>, Seq<u8>)>>, gated: bool) -> Option<
    Seq<(Seq<u8>, Seq<u8>)>,
> {
    if gated {
        Some(
            match o {
                Some(x) => x,
                None => Seq::empty(),
            },
        )
    } else {
        None
    }
}

pub open spec fn se_body_back(t: MaterialView, v: MinecraftVersion, gated: bool) -> Result<
    Seq<u8>,
    WriteError,
> {
    if t.property_fields.len() > 0xFFFF {
        Err(WriteError::IntOverflow)
    } else {
        match se_table::<(Vec<u8>, PropertyField)>(t.property_fields, v) {
            Ok(pb) => match se_overrides(t.overrides, v, gated) {
                Ok(ob) => if t.passes.len() > 0xFFFF {
                    Err(WriteError::IntOverflow)
                } else {
                    match se_table::<(Vec<u8>, Pass)>(t.passes, v) {
                        Ok(qb) => Ok(
                            se_u16(t.property_fields.len() as u16) + pb + ob + se_u16(
                                t.passes.len() as u16,
                            ) + qb + se_u64(MAGIC),
                        ),
                        Err(e) => Err(e),
                    }
                },
                Err(e) => Err(e),
            },
            Err(e) => Err(e),
        }
    }
}

/// What the emitter writes: the body is always emitted in the clear,
/// with the `NONE` tag, and the header's schema number is forced to
/// the value the target schema mandates.
pub open spec fn se_cmd(t: MaterialView, v: MinecraftVersion) -> Result<Seq<u8>, WriteError> {
    match se_body_front(t, v) {
        Ok(bf) => match se_body_back(t, v, overrides_gate(v, t.name)) {
            Ok(bb) => Ok(
                se_u64(MAGIC) + se_u32(39) + spec_banner() + se_u64(v.stored_version_spec())
                    + se_u32(ENCRYPTION_NONE_TAG) + bf + bb,
            ),
            Err(e) => Err(e),
        },
        Err(e) => Err(e),
    }
}

pub open spec fn wf_opt_pairs(o: Option<Seq<(Seq<u8>, Seq<u8>)>>, v: MinecraftVersion) -> bool {
    match o {
        Some(x) => wf_tbl::<(Vec<u8>, Vec<u8>)>(x, v),
        None => true,
    }
}

/// What the round trip needs of an in-memory material beyond what
/// emission itself checks: every string is UTF-8, fixed payloads have
/// their mandated widths, and on the oldest schema every pass bitset
/// length carries the marker byte.
pub open spec fn wf_cmd(t: MaterialView, v: MinecraftVersion) -> bool {
    &&& is_utf8(t.name)
    &&& match t.parent_name {
        Some(p) => is_utf8(p),
        None => true,
    }
    &&& wf_tbl::<(Vec<u8>, SamplerDefinition)>(t.sampler_definitions, v)
    &&& wf_tbl::<(Vec<u8>, PropertyField)>(t.property_fields, v)
    &&& wf_opt_pairs(t.overrides, v)
    &&& wf_tbl::<(Vec<u8>, Pass)>(t.passes, v)
}

/// The material as it comes back from its own emission at schema `v`.
pub open spec fn norm_cmd(t: MaterialView, v: MinecraftVersion) -> MaterialView {
    MaterialView {
        version: v.stored_version_spec(),
        encryption_variant: EncryptionVariant::NoEncryption,
        name: t.name,
        parent_name: t.parent_name,
        sampler_definitions: norm_tbl::<(Vec<u8>, SamplerDefinition)>(t.sampler_definitions, v),
        property_fields: norm_tbl::<(Vec<u8>, PropertyField)>(t.property_fields, v),
        overrides: norm_overrides(t.overrides, overrides_gate(v, t.name)),
        passes: norm_tbl::<(Vec<u8>, Pass)>(t.passes, v),
    }
}

// ---------------------------------------------------------------------
// Executable decoding
// ---------------------------------------------------------------------

pub open spec fn vw_body_front(f: (Vec<u8>, Option<Vec<u8>>, Vec<(Vec<u8>, SamplerDefinition)>)) -> (
    Seq<u8>,
    Option<Seq<u8>>,
    Seq<(Seq<u8>, SamplerDefinitionView)>,
) {
    (
        f.0@,
        match f.1 {
            Some(p) => Some(p@),
            None => None,
        },
        vw_tbl::<(Vec<u8>, SamplerDefinition)>(f.2@),
    )
}

pub open spec fn vw_body_back(
    b: (Vec<(Vec<u8>, PropertyField)>, Option<Vec<(Vec<u8>, Vec<u8>)>>, Vec<(Vec<u8>, Pass)>),
) -> (
    Seq<(Seq<u8>, PropertyFieldView)>,
    Option<Seq<(Seq<u8>, Seq<u8>)>>,
    Seq<(Seq<u8>, PassView)>,
) {
    (
        vw_tbl::<(Vec<u8>, PropertyField)>(b.0@),
        match b.1 {
            Some(o) => Some(vw_tbl::<(Vec<u8>, Vec<u8>)>(o@)),
            None => None,
        },
        vw_tbl::<(Vec<u8>, Pass)>(b.2@),
    )
}

fn read_overrides(data: &Vec<u8>, off: usize, v: MinecraftVersion, gated: bool) -> (r: Result<
    (Option<Vec<(Vec<u8>, Vec<u8>)>>, usize),
    ReadError,
>)
    requires
        off <= data@.len(),
    ensures
        match r {
            Ok((o, off2)) => off <= off2 <= data@.len() && sp_overrides(
                data@.skip(off as int),
                v,
                gated,
            ) == Ok::<_, ReadError>(
                (
                    match o {
                        Some(x) => Some(vw_tbl::<(Vec<u8>, Vec<u8>)>(x@)),
                        None => None,
                    },
                    data@.skip(off2 as int),
                ),
            ),
            Err(e) => sp_overrides(data@.skip(off as int), v, gated) == Err::<
                (Option<Seq<(Seq<u8>, Seq<u8>)>>, Seq<u8>),
                _,
            >(e),
        },
{
    if gated {
        match read_u16(data, off) {
            Ok((n, o1)) => match read_table::<(Vec<u8>, Vec<u8>)>(data, o1, n as usize, v) {
                Ok((tbl, o2)) => Ok((Some(tbl), o2)),
                Err(e) => Err(e),
            },
            Err(e) => Err(e),
        }
    } else {
        Ok((None, off))
    }
}

fn read_body_front(data: &Vec<u8>, off: usize, v: MinecraftVersion) -> (r: Result<
    ((Vec<u8>, Option<Vec<u8>>, Vec<(Vec<u8>, SamplerDefinition)>), usize),
    ReadError,
>)
    requires
        off <= data@.len(),
    ensures
        match r {
            Ok((f, off2)) => off <= off2 <= data@.len() && sp_body_front(
                data@.skip(off as int),
                v,
            ) == Ok::<_, ReadError>((vw_body_front(f), data@.skip(off2 as int))),
            Err(e) => sp_body_front(data@.skip(off as int), v) == Err::<
                ((Seq<u8>, Option<Seq<u8>>, Seq<(Seq<u8>, SamplerDefinitionView)>), Seq<u8>),
                _,
            >(e),
        },
{
    match read_string(data, off) {
        Ok((name, o1)) => match read_opt_string(data, o1) {
            Ok((parent, o2)) => match read_u8(data, o2) {
                Ok((n, o3)) => match read_table::<(Vec<u8>, SamplerDefinition)>(
                    data,
                    o3,
                    n as usize,
                    v,
                ) {
                    Ok((samplers, o4)) => Ok(((name, parent, samplers), o4)),
                    Err(e) => Err(e),
                },
                Err(e) => Err(e),
            },
            Err(e) => Err(e),
        },
        Err(e) => Err(e),
    }
}

fn read_body_back(data: &Vec<u8>, off: usize, v: MinecraftVersion, gated: bool) -> (r: Result<
    (
        (Vec<(Vec<u8>, PropertyField)>, Option<Vec<(Vec<u8>, Vec<u8>)>>, Vec<(Vec<u8>, Pass)>),
        usize,
    ),
    ReadError,
>)
    requires
        off <= data@.len(),
    ensures
        match r {
            Ok((b, off2)) => off <= off2 <= data@.len() && sp_body_back(
                data@.skip(off as int),
                v,
                gated,
            ) == Ok::<_, ReadError>((vw_body_back(b), data@.skip(off2 as int))),
            Err(e) => sp_body_back(data@.skip(off as int), v, gated) == Err::<
                (
                    (
                        Seq<(Seq<u8>, PropertyFieldView)>,
                        Option<Seq<(Seq<u8>, Seq<u8>)>>,
                        Seq<(Seq<u8>, PassView)>,
                    ),
                    Seq<u8>,
                ),
                _,
            >(e),
        },
{
    match read_u16(data, off) {
        Ok((pn, o1)) => match read_table::<(Vec<u8>, PropertyField)>(data, o1, pn as usize, v) {
            Ok((props, o2)) => match read_overrides(data, o2, v, gated) {
                Ok((ovr, o3)) => match read_u16(data, o3) {
                    Ok((cn, o4)) => match read_table::<(Vec<u8>, Pass)>(data, o4, cn as usize, v) {
                        Ok((passes, o5)) => match read_u64(data, o5) {
                            Ok((m, o6)) => if m != MAGIC {
                                Err(ReadError::BadMagic)
                            } else {
                                Ok(((props, ovr, passes), o6))
                            },
                            Err(e) => Err(e),
                        },
                        Err(e) => Err(e),
                    },
                    Err(e) => Err(e),
                },
                Err(e) => Err(e),
            },
            Err(e) => Err(e),
        },
        Err(e) => Err(e),
    }
}

fn read_body(data: &Vec<u8>, off: usize, v: MinecraftVersion) -> (r: Result<
    (
        (
            (Vec<u8>, Option<Vec<u8>>, Vec<(Vec<u8>, SamplerDefinition)>),
            (
                Vec<(Vec<u8>, PropertyField)>,
                Option<Vec<(Vec<u8>, Vec<u8>)>>,
                Vec<(Vec<u8>, Pass)>,
            ),
        ),
        usize,
    ),
    ReadError,
>)
    requires
        off <= data@.len(),
    ensures
        match r {
            Ok(((f, b), off2)) => off <= off2 <= data@.len() && sp_body(data@.skip(off as int), v)
                == Ok::<_, ReadError>(((vw_body_front(f), vw_body_back(b)), data@.skip(off2 as int))),
            Err(e) => sp_body(data@.skip(off as int), v) matches Err(e2) && e2 == e,
        },
{
    match read_body_front(data, off, v) {
        Ok((f, o4)) => {
            let gated = v.rank() >= 4 && !is_core_builtins(&f.0);
            proof {
                assert(gated == overrides_gate(v, vw_body_front(f).0));
            }
            match read_body_back(data, o4, v, gated) {
                Ok((b, o6)) => Ok(((f, b), o6)),
                Err(e) => Err(e),
            }
        },
        Err(e) => Err(e),
    }
}

impl CompiledMaterialDefinition {
    /// Decode one file at the given target schema. On success the
    /// returned count says how many bytes of `data` were consumed.
    pub fn read(data: &Vec<u8>, version: MinecraftVersion) -> (r: Result<(Self, usize), ReadError>)
        ensures
            match r {
                Ok((t, used)) => used <= data@.len() && sp_cmd(data@, version) == Ok::<
                    _,
                    ReadError,
                >((t@, data@.skip(used as int))),
                Err(e) => sp_cmd(data@, version) == Err::<(MaterialView, Seq<u8>), _>(e),
            },
    {
        proof {
            assert(data@.skip(0) =~= data@);
        }
        match read_u64(data, 0) {
            Ok((magic, o1)) => {
                if magic != MAGIC {
                    return Err(ReadError::BadMagic);
                }
                match read_string(data, o1) {
                    Ok((bn, o2)) => {
                        let bb = banner_bytes();
                        if !vec_u8_eq(&bn, &bb) {
                            return Err(ReadError::BadBanner);
                        }
                        match read_u64(data, o2) {
                            Ok((ver, o3)) => {
                                if ver == 23 && version != MinecraftVersion::V26_0_24 {
                                    return Err(ReadError::WrongVersion);
                                }
                                match read_encryption_variant(data, o3) {
                                    Ok((ev, o4)) => match ev {
                                        EncryptionVariant::NoEncryption => match read_body(
                                            data,
                                            o4,
                                            version,
                                        ) {
                                            Ok(((f, b), o5)) => Ok(
                                                (Self::assemble(ver, ev, f, b), o5),
                                            ),
                                            Err(e) => Err(e),
                                        },
                                        EncryptionVariant::SimplePassphrase => Err(
                                            ReadError::UnsupportedEncryption,
                                        ),
                                        EncryptionVariant::KeyPair => Self::read_encrypted(
                                            data,
                                            o4,
                                            version,
                                            ver,
                                        ),
                                    },
                                    Err(e) => Err(e),
                                }
                            },
                            Err(e) => Err(e),
                        }
                    },
                    Err(e) => Err(e),
                }
            },
            Err(e) => Err(e),
        }
    }

    fn assemble(
        ver: u64,
        ev: EncryptionVariant,
        f: (Vec<u8>, Option<Vec<u8>>, Vec<(Vec<u8>, SamplerDefinition)>),
        b: (Vec<(Vec<u8>, PropertyField)>, Option<Vec<(Vec<u8>, Vec<u8>)>>, Vec<(Vec<u8>, Pass)>),
    ) -> (r: Self)
        ensures
            r@ == mk_material(ver, ev, vw_body_front(f), vw_body_back(b)),
    {
        let r = CompiledMaterialDefinition {
            version: ver,
            encryption_variant: ev,
            name: f.0,
            parent_name: f.1,
            sampler_definitions: f.2,
            property_fields: b.0,
            overrides: b.1,
            passes: b.2,
        };
        proof {
            assert(r@ =~= mk_material(ver, ev, vw_body_front(f), vw_body_back(b)));
        }
        r
    }

    /// The `KYPR` arm: three length-prefixed arrays, then the body is
    /// decoded from the decrypted plaintext.
    #[verifier::rlimit(100)]
    fn read_encrypted(data: &Vec<u8>, off: usize, version: MinecraftVersion, ver: u64) -> (r:
        Result<(Self, usize), ReadError>)
        requires
            off <= data@.len(),
        ensures
            match r {
                Ok((t, used)) => used <= data@.len() && sp_cmd_encrypted(
                    data@.skip(off as int),
                    version,
                    ver,
                ) == Ok::<_, ReadError>((t@, data@.skip(used as int))),
                Err(e) => sp_cmd_encrypted(data@.skip(off as int), version, ver) == Err::<
                    (MaterialView, Seq<u8>),
                    _,
                >(e),
            },
    {
        match read_byte_array(data, off) {
            Ok((key, o5)) => match read_byte_array(data, o5) {
                Ok((nonce, o6)) => match read_byte_array(data, o6) {
                    Ok((ct, o7)) => {
                        if key.len() != 32 || nonce.len() < 12 {
                            return Err(ReadError::CryptoFailure);
                        }
                        let nonce12 = if nonce.len() > 12 {
                            copy_range(&nonce, 0, 12)
                        } else {
                            nonce
                        };
                        proof {
                            assert(nonce12@ =~= nonce12@.take(12));
                        }
                        match aes256_gcm_decrypt(&key, &nonce12, &ct) {
                            None => Err(ReadError::CryptoFailure),
                            Some(pt) => match read_body(&pt, 0, version) {
                                Ok(((f, b), _used)) => {
                                    proof {
                                        assert(pt@.skip(0) =~= pt@);
                                    }
                                    Ok(
                                        (
                                            Self::assemble(
                                                ver,
                                                EncryptionVariant::KeyPair,
                                                f,
                                                b,
                                            ),
                                            o7,
                                        ),
                                    )
                                },
                                Err(e) => {
                                    proof {
                                        assert(pt@.skip(0) =~= pt@);
                                    }
                                    Err(e)
                                },
                            },
                        }
                    },
                    Err(e) => Err(e),
                },
                Err(e) => Err(e),
            },
            Err(e) => Err(e),
        }
    }
}

/// The tail of `sp_cmd` after the `KYPR` tag.
pub open spec fn sp_cmd_encrypted(s: Seq<u8>, v: MinecraftVersion, version: u64) -> Result<
    (MaterialView, Seq<u8>),
    ReadError,
> {
    match sp_byte_array(s) {
        Ok((key, s5)) => match sp_byte_array(s5) {
            Ok((nonce, s6)) => match sp_byte_array(s6) {
                Ok((ct, s7)) => if key.len() != 32 || nonce.len() < 12 {
                    Err(ReadError::CryptoFailure)
                } else {
                    match gcm_plaintext(key, nonce.take(12), ct) {
                        Some(pt) => match sp_body(pt, v) {
                            Ok(((f, b), _)) => Ok(
                                (mk_material(version, EncryptionVariant::KeyPair, f, b), s7),
                            ),
                            Err(e) => Err(e),
                        },
                        None => Err(ReadError::CryptoFailure),
                    }
                },
                Err(e) => Err(e),
            },
            Err(e) => Err(e),
        },
        Err(e) => Err(e),
    }
}

// ---------------------------------------------------------------------
// Executable emission
// ---------------------------------------------------------------------

fn write_overrides(
    o: &Option<Vec<(Vec<u8>, Vec<u8>)>>,
    v: MinecraftVersion,
    gated: bool,
    out: &mut Vec<u8>,
) -> (r: Result<(), WriteError>)
    ensures
        match se_overrides(
            match o {
                Some(x) => Some(vw_tbl::<(Vec<u8>, Vec<u8>)>(x@)),
                None => None,
            },
            v,
            gated,
        ) {
            Ok(b) => r == Ok::<(), WriteError>(()) && final(out)@ == old(out)@ + b,
            Err(e) => r == Err::<(), WriteError>(e),
        },
{
    if gated {
        match o {
            Some(x) => {
                if x.len() > 0xFFFF {
                    return Err(WriteError::IntOverflow);
                }
                write_u16(out, x.len() as u16);
                match write_table::<(Vec<u8>, Vec<u8>)>(x, v, out) {
                    Ok(()) => {
                        proof {
                            match se_table::<(Vec<u8>, Vec<u8>)>(
                                vw_tbl::<(Vec<u8>, Vec<u8>)>(x@),
                                v,
                            ) {
                                Ok(b) => {
                                    assert(out@ =~= old(out)@ + (se_u16(x@.len() as u16) + b));
                                },
                                Err(_) => {},
                            }
                        }
                        Ok(())
                    },
                    Err(e) => Err(e),
                }
            },
            None => {
                write_u16(out, 0);
                proof {
                    assert(se_table::<(Vec<u8>, Vec<u8>)>(Seq::empty(), v) == Ok::<
                        Seq<u8>,
                        WriteError,
                    >(Seq::empty()));
                    assert(out@ =~= old(out)@ + (se_u16(0) + Seq::<u8>::empty()));
                }
                Ok(())
            },
        }
    } else {
        proof {
            assert(out@ =~= old(out)@ + Seq::<u8>::empty());
        }
        Ok(())
    }
}

impl CompiledMaterialDefinition {
    fn write_body_front(&self, out: &mut Vec<u8>, v: MinecraftVersion) -> (r: Result<
        (),
        WriteError,
    >)
        ensures
            match se_body_front(self@, v) {
                Ok(b) => r == Ok::<(), WriteError>(()) && final(out)@ == old(out)@ + b,
                Err(e) => r == Err::<(), WriteError>(e),
            },
    {
        match write_string(&self.name, out) {
            Ok(()) => {},
            Err(e) => {
                return Err(e);
            },
        }
        match optional_write(&self.parent_name, out) {
            Ok(()) => {},
            Err(e) => {
                return Err(e);
            },
        }
        if self.sampler_definitions.len() > 255 {
            return Err(WriteError::IntOverflow);
        }
        write_u8(out, self.sampler_definitions.len() as u8);
        match write_table::<(Vec<u8>, SamplerDefinition)>(&self.sampler_definitions, v, out) {
            Ok(()) => {},
            Err(e) => {
                return Err(e);
            },
        }
        proof {
            match se_body_front(self@, v) {
                Ok(b) => {
                    let nb = se_string(self@.name)->Ok_0;
                    let pb = se_opt_string(self@.parent_name)->Ok_0;
                    let a3 = se_u8(self@.sampler_definitions.len() as u8);
                    let sb = se_table::<(Vec<u8>, SamplerDefinition)>(
                        self@.sampler_definitions,
                        v,
                    )->Ok_0;
                    let o0 = old(out)@;
                    seq_assoc(o0, nb, pb);
                    seq_assoc(o0, nb + pb, a3);
                    seq_assoc(o0, nb + pb + a3, sb);
                    assert(out@ == o0 + b);
                },
                Err(_) => {
                    assert(false);
                },
            }
        }
        Ok(())
    }

    #[verifier::rlimit(100)]
    #[verifier::spinoff_prover]
    fn write_body_back(&self, out: &mut Vec<u8>, v: MinecraftVersion, gated: bool) -> (r: Result<
        (),
        WriteError,
    >)
        ensures
            match se_body_back(self@, v, gated) {
                Ok(b) => r == Ok::<(), WriteError>(()) && final(out)@ == old(out)@ + b,
                Err(e) => r == Err::<(), WriteError>(e),
            },
    {
        if self.property_fields.len() > 0xFFFF {
            return Err(WriteError::IntOverflow);
        }
        write_u16(out, self.property_fields.len() as u16);
        match write_table::<(Vec<u8>, PropertyField)>(&self.property_fields, v, out) {
            Ok(()) => {},
            Err(e) => {
                return Err(e);
            },
        }
        match write_overrides(&self.overrides, v, gated, out) {
            Ok(()) => {},
            Err(e) => {
                return Err(e);
            },
        }
        if self.passes.len() > 0xFFFF {
            return Err(WriteError::IntOverflow);
        }
        write_u16(out, self.passes.len() as u16);
        match write_table::<(Vec<u8>, Pass)>(&self.passes, v, out) {
            Ok(()) => {},
            Err(e) => {
                return Err(e);
            },
        }
        write_u64(out, MAGIC);
        proof {
            match se_body_back(self@, v, gated) {
                Ok(b) => {
                    let a1 = se_u16(self@.property_fields.len() as u16);
                    let pb = se_table::<(Vec<u8>, PropertyField)>(self@.property_fields, v)->Ok_0;
                    let ob = se_overrides(self@.overrides, v, gated)->Ok_0;
                    let a4 = se_u16(self@.passes.len() as u16);
                    let qb = se_table::<(Vec<u8>, Pass)>(self@.passes, v)->Ok_0;
                    let am = se_u64(MAGIC);
                    let o0 = old(out)@;
                    seq_assoc(o0, a1, pb);
                    seq_assoc(o0, a1 + pb, ob);
                    seq_assoc(o0, a1 + pb + ob, a4);
                    seq_assoc(o0, a1 + pb + ob + a4, qb);
                    seq_assoc(o0, a1 + pb + ob + a4 + qb, am);
                    assert(out@ == o0 + b);
                },
                Err(_) => {
                    assert(false);
                },
            }
        }
        Ok(())
    }

    /// Emit the material at the target schema, always in the clear:
    /// the header carries the forced schema number and the `NONE`
    /// encryption tag, whatever the decoded variant was.
    #[verifier::rlimit(100)]
    #[verifier::spinoff_prover]
    pub fn write(&self, out: &mut Vec<u8>, version: MinecraftVersion) -> (r: Result<
        (),
        WriteError,
    >)
        ensures
            match se_cmd(self@, version) {
                Ok(b) => r == Ok::<(), WriteError>(()) && final(out)@ == old(out)@ + b,
                Err(e) => r == Err::<(), WriteError>(e),
            },
    {
        write_u64(out, MAGIC);
        let bb = banner_bytes();
        write_u32(out, 39);
        write_raw(out, &bb);
        write_u64(out, version.stored_version());
        write_u32(out, ENCRYPTION_NONE_TAG);
        match self.write_body_front(out, version) {
            Ok(()) => {},
            Err(e) => {
                return Err(e);
            },
        }
        let gated = version.rank() >= 4 && !is_core_builtins(&self.name);
        proof {
            assert(gated == overrides_gate(version, self@.name));
        }
        match self.write_body_back(out, version, gated) {
            Ok(()) => {},
            Err(e) => {
                return Err(e);
            },
        }
        proof {
            match se_cmd(self@, version) {
                Ok(b) => {
                    let a1 = se_u64(MAGIC);
                    let a2 = se_u32(39);
                    let a3 = spec_banner();
                    let a4 = se_u64(version.stored_version_spec());
                    let a5 = se_u32(ENCRYPTION_NONE_TAG);
                    let bf = se_body_front(self@, version)->Ok_0;
                    let bb2 = se_body_back(self@, version, overrides_gate(version, self@.name))->Ok_0;
                    let o0 = old(out)@;
                    seq_assoc(o0, a1, a2);
                    seq_assoc(o0, a1 + a2, a3);
                    seq_assoc(o0, a1 + a2 + a3, a4);
                    seq_assoc(o0, a1 + a2 + a3 + a4, a5);
                    seq_assoc(o0, a1 + a2 + a3 + a4 + a5, bf);
                    seq_assoc(o0, a1 + a2 + a3 + a4 + a5 + bf, bb2);
                    assert(out@ == o0 + b);
                },
                Err(_) => {
                    assert(false);
                },
            }
        }
        Ok(())
    }
}

// ---------------------------------------------------------------------
// Auto-detection and migration
// ---------------------------------------------------------------------

/// The first schema in the list at which the bytes parse.
pub open spec fn detect_from(s: Seq<u8>, vs: Seq<MinecraftVersion>) -> Option<MinecraftVersion>
    decreases vs.len(),
{
    if vs.len() == 0 {
        None
    } else if sp_cmd(s, vs[0]) is Ok {
        Some(vs[0])
    } else {
        detect_from(s, vs.skip(1))
    }
}

/// The newest known schema at which the bytes parse.
pub open spec fn spec_detect(s: Seq<u8>) -> Option<MinecraftVersion> {
    detect_from(s, all_versions_spec())
}

pub proof fn lemma_detect_ok(s: Seq<u8>, vs: Seq<MinecraftVersion>)
    ensures
        match detect_from(s, vs) {
            Some(v) => sp_cmd(s, v) is Ok,
            None => true,
        },
    decreases vs.len(),
{
    if vs.len() > 0 && !(sp_cmd(s, vs[0]) is Ok) {
        lemma_detect_ok(s, vs.skip(1));
    }
}

/// Try every known schema, newest first, and report the first that
/// yields a complete parse.
pub fn detect_version(data: &Vec<u8>) -> (r: Option<MinecraftVersion>)
    ensures
        r == spec_detect(data@),
{
    let vs = all_versions_newest_first();
    let n = vs.len();
    let mut i: usize = 0;
    proof {
        assert(all_versions_spec().skip(0) =~= all_versions_spec());
    }
    while i < n
        invariant
            i <= n,
            vs@ == all_versions_spec(),
            n == vs@.len(),
            spec_detect(data@) == detect_from(data@, all_versions_spec().skip(i as int)),
        decreases n - i,
    {
        let v = vs[i];
        proof {
            assert(all_versions_spec().skip(i as int)[0] == vs@[i as int]);
        }
        match CompiledMaterialDefinition::read(data, v) {
            Ok(_) => {
                return Some(v);
            },
            Err(_) => {
                proof {
                    assert(all_versions_spec().skip(i as int).skip(1) =~= all_versions_spec().skip(
                        i as int + 1,
                    ));
                }
                i = i + 1;
            },
        }
    }
    proof {
        assert(all_versions_spec().skip(n as int) =~= Seq::<MinecraftVersion>::empty());
    }
    None
}

/// What migrating a blob to `target` yields: the file re-emitted at
/// `target` from the tree of the newest schema that parses it, or
/// nothing when no schema parses it or the tree cannot be represented
/// at `target`.
pub open spec fn spec_update(s: Seq<u8>, target: MinecraftVersion) -> Option<Seq<u8>> {
    match spec_detect(s) {
        None => None,
        Some(v) => match sp_cmd(s, v) {
            Ok((t, _)) => match se_cmd(t, target) {
                Ok(b) => Some(b),
                Err(_) => None,
            },
            Err(_) => None,
        },
    }
}

/// Auto-detect a decoding schema and re-emit the material at the
/// chosen target schema.
pub fn update_file(data: &Vec<u8>, target: MinecraftVersion) -> (r: Option<Vec<u8>>)
    ensures
        match r {
            Some(outv) => spec_update(data@, target) == Some(outv@),
            None => spec_update(data@, target) is None,
        },
{
    match detect_version(data) {
        None => None,
        Some(v) => {
            proof {
                lemma_detect_ok(data@, all_versions_spec());
            }
            match CompiledMaterialDefinition::read(data, v) {
                Ok((t, _used)) => {
                    let mut out: Vec<u8> = Vec::new();
                    match t.write(&mut out, target) {
                        Ok(()) => {
                            proof {
                                match se_cmd(t@, target) {
                                    Ok(b) => {
                                        assert(out@ =~= b);
                                    },
                                    Err(_) => {},
                                }
                            }
                            Some(out)
                        },
                        Err(_) => None,
                    }
                },
                Err(_) => {
                    proof {
                        assert(false);
                    }
                    None
                },
            }
        },
    }
}

// ---------------------------------------------------------------------
// Laws
// ---------------------------------------------------------------------

proof fn lemma_banner_ascii()
    ensures
        is_utf8(spec_banner()),
{
    assert forall|i: int| 0 <= i < spec_banner().len() implies spec_banner()[i] < 0x80 by {}
    lemma_ascii_is_utf8(spec_banner());
}

proof fn lemma_overrides_rt(
    o: Option<Seq<(Seq<u8>, Seq<u8>)>>,
    v: MinecraftVersion,
    gated: bool,
    rest: Seq<u8>,
)
    requires
        wf_opt_pairs(o, v),
    ensures
        match se_overrides(o, v, gated) {
            Ok(b) => sp_overrides(b + rest, v, gated) == Ok::<_, ReadError>(
                (norm_overrides(o, gated), rest),
            ),
            Err(_) => true,
        },
{
    if gated {
        let tbl = match o {
            Some(x) => x,
            None => Seq::<(Seq<u8>, Seq<u8>)>::empty(),
        };
        if tbl.len() <= 0xFFFF {
            match se_table::<(Vec<u8>, Vec<u8>)>(tbl, v) {
                Err(_) => {},
                Ok(tb) => {
                    let n = tbl.len() as u16;
                    seq_assoc(se_u16(n), tb, rest);
                    lemma_u16_rt(n, tb + rest);
                    lemma_table_rt::<(Vec<u8>, Vec<u8>)>(tbl, v, rest);
                    assert(norm_tbl::<(Vec<u8>, Vec<u8>)>(tbl, v) =~= tbl);
                },
            }
        }
    } else {
        assert(Seq::<u8>::empty() + rest =~= rest);
    }
}

#[verifier::rlimit(100)]
#[verifier::spinoff_prover]
proof fn lemma_body_front_rt(t: MaterialView, v: MinecraftVersion, rest: Seq<u8>)
    requires
        wf_cmd(t, v),
    ensures
        match se_body_front(t, v) {
            Ok(b) => sp_body_front(b + rest, v) == Ok::<_, ReadError>(
                (
                    (
                        t.name,
                        t.parent_name,
                        norm_tbl::<(Vec<u8>, SamplerDefinition)>(t.sampler_definitions, v),
                    ),
                    rest,
                ),
            ),
            Err(_) => true,
        },
{
    match se_body_front(t, v) {
        Err(_) => {},
        Ok(b) => {
            let nb = se_string(t.name)->Ok_0;
            let pb = se_opt_string(t.parent_name)->Ok_0;
            let a3 = se_u8(t.sampler_definitions.len() as u8);
            let sb = se_table::<(Vec<u8>, SamplerDefinition)>(t.sampler_definitions, v)->Ok_0;
            let r4 = rest;
            let r3 = sb + r4;
            let r2 = a3 + r3;
            let r1 = pb + r2;
            seq_assoc(nb + pb + a3, sb, rest);
            seq_assoc(nb + pb, a3, r3);
            seq_assoc(nb, pb, r2);
            assert(b + rest == nb + r1);
            lemma_string_rt(t.name, r1);
            lemma_opt_string_rt(t.parent_name, r2);
            lemma_u8_rt(t.sampler_definitions.len() as u8, r3);
            lemma_table_rt::<(Vec<u8>, SamplerDefinition)>(t.sampler_definitions, v, r4);
        },
    }
}

#[verifier::rlimit(100)]
#[verifier::spinoff_prover]
proof fn lemma_body_back_rt(t: MaterialView, v: MinecraftVersion, gated: bool, rest: Seq<u8>)
    requires
        wf_cmd(t, v),
    ensures
        match se_body_back(t, v, gated) {
            Ok(b) => sp_body_back(b + rest, v, gated) == Ok::<_, ReadError>(
                (
                    (
                        norm_tbl::<(Vec<u8>, PropertyField)>(t.property_fields, v),
                        norm_overrides(t.overrides, gated),
                        norm_tbl::<(Vec<u8>, Pass)>(t.passes, v),
                    ),
                    rest,
                ),
            ),
            Err(_) => true,
        },
{
    match se_body_back(t, v, gated) {
        Err(_) => {},
        Ok(b) => {
            let a1 = se_u16(t.property_fields.len() as u16);
            let pb = se_table::<(Vec<u8>, PropertyField)>(t.property_fields, v)->Ok_0;
            let ob = se_overrides(t.overrides, v, gated)->Ok_0;
            let a4 = se_u16(t.passes.len() as u16);
            let qb = se_table::<(Vec<u8>, Pass)>(t.passes, v)->Ok_0;
            let am = se_u64(MAGIC);
            let r6 = rest;
            let r5 = am + r6;
            let r4 = qb + r5;
            let r3 = a4 + r4;
            let r2 = ob + r3;
            let r1 = pb + r2;
            seq_assoc(a1 + pb + ob + a4 + qb, am, rest);
            seq_assoc(a1 + pb + ob + a4, qb, r5);
            seq_assoc(a1 + pb + ob, a4, r4);
            seq_assoc(a1 + pb, ob, r3);
            seq_assoc(a1, pb, r2);
            assert(b + rest == a1 + r1);
            lemma_u16_rt(t.property_fields.len() as u16, r1);
            lemma_table_rt::<(Vec<u8>, PropertyField)>(t.property_fields, v, r2);
            lemma_overrides_rt(t.overrides, v, gated, r3);
            lemma_u16_rt(t.passes.len() as u16, r4);
            lemma_table_rt::<(Vec<u8>, Pass)>(t.passes, v, r5);
            lemma_u64_rt(MAGIC, r6);
        },
    }
}

/// Emitting a well-formed material at schema `v` and parsing the bytes
/// back at `v` yields the material, normalised for `v`: the stored
/// schema number is the forced one, the encryption variant reads as
/// plain, schema-less fields are reconstituted, and the override table
/// is present exactly where the schema and name call for it.
#[verifier::rlimit(100)]
#[verifier::spinoff_prover]
pub proof fn lemma_cmd_rt(t: MaterialView, v: MinecraftVersion, rest: Seq<u8>)
    requires
        wf_cmd(t, v),
    ensures
        match se_cmd(t, v) {
            Ok(b) => sp_cmd(b + rest, v) == Ok::<_, ReadError>((norm_cmd(t, v), rest)),
            Err(_) => true,
        },
{
    match se_cmd(t, v) {
        Err(_) => {},
        Ok(b) => {
            let gate = overrides_gate(v, t.name);
            let a1 = se_u64(MAGIC);
            let a2 = se_u32(39);
            let a3 = spec_banner();
            let a4 = se_u64(v.stored_version_spec());
            let a5 = se_u32(ENCRYPTION_NONE_TAG);
            let bf = se_body_front(t, v)->Ok_0;
            let bb2 = se_body_back(t, v, gate)->Ok_0;
            let r7 = rest;
            let r6 = bb2 + r7;
            let r5 = bf + r6;
            let r4 = a5 + r5;
            let r3 = a4 + r4;
            let r2 = a3 + r3;
            let r1 = a2 + r2;
            seq_assoc(a1 + a2 + a3 + a4 + a5 + bf, bb2, rest);
            seq_assoc(a1 + a2 + a3 + a4 + a5, bf, r6);
            seq_assoc(a1 + a2 + a3 + a4, a5, r5);
            seq_assoc(a1 + a2 + a3, a4, r4);
            seq_assoc(a1 + a2, a3, r3);
            seq_assoc(a1, a2, r2);
            assert(b + rest == a1 + r1);
            lemma_u64_rt(MAGIC, r1);
            lemma_banner_ascii();
            assert(spec_banner().len() == 39);
            assert(se_string(spec_banner()) == Ok::<Seq<u8>, WriteError>(a2 + a3));
            seq_assoc(a2, a3, r3);
            lemma_string_rt(spec_banner(), r3);
            lemma_u64_rt(v.stored_version_spec(), r4);
            lemma_encryption_variant_rt(EncryptionVariant::NoEncryption, r5);
            lemma_body_front_rt(t, v, r6);
            lemma_body_back_rt(t, v, gate, r7);
            assert(sp_cmd(b + rest, v) == Ok::<_, ReadError>((norm_cmd(t, v), rest))) by {
                assert(v.stored_version_spec() == 23 ==> v == MinecraftVersion::V26_0_24);
                assert(mk_material(
                    v.stored_version_spec(),
                    EncryptionVariant::NoEncryption,
                    (
                        t.name,
                        t.parent_name,
                        norm_tbl::<(Vec<u8>, SamplerDefinition)>(t.sampler_definitions, v),
                    ),
                    (
                        norm_tbl::<(Vec<u8>, PropertyField)>(t.property_fields, v),
                        norm_overrides(t.overrides, gate),
                        norm_tbl::<(Vec<u8>, Pass)>(t.passes, v),
                    ),
                ) =~= norm_cmd(t, v));
            }
        },
    }
}

/// Normalising a material does not change what it emits, and keeps it
/// well formed.
pub proof fn lemma_cmd_norm(t: MaterialView, v: MinecraftVersion)
    ensures
        se_cmd(norm_cmd(t, v), v) == se_cmd(t, v),
        wf_cmd(t, v) ==> wf_cmd(norm_cmd(t, v), v),
{
    let n = norm_cmd(t, v);
    lemma_table_norm::<(Vec<u8>, SamplerDefinition)>(t.sampler_definitions, v);
    lemma_table_norm::<(Vec<u8>, PropertyField)>(t.property_fields, v);
    lemma_table_norm::<(Vec<u8>, Pass)>(t.passes, v);
    assert(n.sampler_definitions.len() == t.sampler_definitions.len());
    assert(n.property_fields.len() == t.property_fields.len());
    assert(n.passes.len() == t.passes.len());
    assert(se_body_front(n, v) == se_body_front(t, v));
    let gate = overrides_gate(v, t.name);
    assert(se_overrides(n.overrides, v, gate) == se_overrides(t.overrides, v, gate));
    assert(se_body_back(n, v, gate) == se_body_back(t, v, gate));
}

/// Emitting a well-formed material and parsing it back at the same
/// schema gives a material that emits the very same bytes: a file in
/// the emitter's image round-trips byte for byte.
pub proof fn lemma_parse_emit_round_trip(
    t0: MaterialView,
    v: MinecraftVersion,
    f: Seq<u8>,
    t: MaterialView,
    rest: Seq<u8>,
)
    requires
        wf_cmd(t0, v),
        se_cmd(t0, v) == Ok::<Seq<u8>, WriteError>(f),
        sp_cmd(f, v) == Ok::<(MaterialView, Seq<u8>), ReadError>((t, rest)),
    ensures
        rest == Seq::<u8>::empty(),
        t == norm_cmd(t0, v),
        se_cmd(t, v) == Ok::<Seq<u8>, WriteError>(f),
{
    lemma_cmd_rt(t0, v, Seq::<u8>::empty());
    assert(f + Seq::<u8>::empty() =~= f);
    lemma_cmd_norm(t0, v);
}

/// An emitted material re-emits identically after a parse: the tree
/// that comes back is the normalised one, still well formed, and its
/// emission is byte-identical.
pub proof fn lemma_reemit_round_trip(t: MaterialView, v: MinecraftVersion)
    requires
        wf_cmd(t, v),
    ensures
        match se_cmd(t, v) {
            Ok(b) => {
                &&& sp_cmd(b, v) == Ok::<(MaterialView, Seq<u8>), ReadError>(
                    (norm_cmd(t, v), Seq::<u8>::empty()),
                )
                &&& se_cmd(norm_cmd(t, v), v) == Ok::<Seq<u8>, WriteError>(b)
                &&& wf_cmd(norm_cmd(t, v), v)
            },
            Err(_) => true,
        },
{
    match se_cmd(t, v) {
        Err(_) => {},
        Ok(b) => {
            lemma_cmd_rt(t, v, Seq::<u8>::empty());
            assert(b + Seq::<u8>::empty() =~= b);
            lemma_cmd_norm(t, v);
        },
    }
}

/// Every emitted file opens and closes with the magic frame word.
#[verifier::rlimit(100)]
pub proof fn lemma_magic_framing(t: MaterialView, v: MinecraftVersion)
    ensures
        match se_cmd(t, v) {
            Ok(b) => b.len() >= 16 && b.take(8) == se_u64(MAGIC) && b.skip(b.len() - 8) == se_u64(
                MAGIC,
            ),
            Err(_) => true,
        },
{
    match se_cmd(t, v) {
        Err(_) => {},
        Ok(b) => {
            let gate = overrides_gate(v, t.name);
            let a1 = se_u64(MAGIC);
            let a2 = se_u32(39);
            let a3 = spec_banner();
            let a4 = se_u64(v.stored_version_spec());
            let a5 = se_u32(ENCRYPTION_NONE_TAG);
            let bf = se_body_front(t, v)->Ok_0;
            let bb2 = se_body_back(t, v, gate)->Ok_0;
            assert(a1.len() == 8);
            assert(b == a1 + a2 + a3 + a4 + a5 + bf + bb2);
            assert(b.take(8) =~= a1);
            let p1 = se_u16(t.property_fields.len() as u16);
            let pb = se_table::<(Vec<u8>, PropertyField)>(t.property_fields, v)->Ok_0;
            let ob = se_overrides(t.overrides, v, gate)->Ok_0;
            let p2 = se_u16(t.passes.len() as u16);
            let qb = se_table::<(Vec<u8>, Pass)>(t.passes, v)->Ok_0;
            let z = p1 + pb + ob + p2 + qb;
            assert(bb2 == z + a1);
            let w = a1 + a2 + a3 + a4 + a5 + bf;
            seq_assoc(w, z, a1);
            assert(b == (w + z) + a1);
            assert(b.skip(b.len() - 8) =~= a1);
        },
    }
}

/// A buffer whose leading frame word is wrong is refused outright.
pub proof fn lemma_bad_magic(s: Seq<u8>, v: MinecraftVersion, w: u64, s1: Seq<u8>)
    requires
        sp_u64(s) == Ok::<(u64, Seq<u8>), ReadError>((w, s1)),
        w != MAGIC,
    ensures
        sp_cmd(s, v) == Err::<(MaterialView, Seq<u8>), ReadError>(ReadError::BadMagic),
{
}

/// A buffer whose banner string reads but differs is refused as such.
pub proof fn lemma_bad_banner(
    s: Seq<u8>,
    v: MinecraftVersion,
    s1: Seq<u8>,
    bn: Seq<u8>,
    s2: Seq<u8>,
)
    requires
        sp_u64(s) == Ok::<(u64, Seq<u8>), ReadError>((MAGIC, s1)),
        sp_string(s1) == Ok::<(Seq<u8>, Seq<u8>), ReadError>((bn, s2)),
        bn != spec_banner(),
    ensures
        sp_cmd(s, v) == Err::<(MaterialView, Seq<u8>), ReadError>(ReadError::BadBanner),
{
}

/// A parsed material carries an override table exactly when the schema
/// is at least 1.21.110 and the material is not `Core/Builtins`; the
/// emitter writes the section under the same gate (`se_overrides`).
#[verifier::rlimit(100)]
#[verifier::spinoff_prover]
pub proof fn lemma_override_gating(
    s: Seq<u8>,
    v: MinecraftVersion,
    t: MaterialView,
    rest: Seq<u8>,
)
    requires
        sp_cmd(s, v) == Ok::<(MaterialView, Seq<u8>), ReadError>((t, rest)),
    ensures
        (t.overrides is Some) <==> overrides_gate(v, t.name),
{
}

proof fn lemma_body_parse_wf(
    s: Seq<u8>,
    v: MinecraftVersion,
    v2: MinecraftVersion,
    f: (Seq<u8>, Option<Seq<u8>>, Seq<(Seq<u8>, SamplerDefinitionView)>),
    b: (
        Seq<(Seq<u8>, PropertyFieldView)>,
        Option<Seq<(Seq<u8>, Seq<u8>)>>,
        Seq<(Seq<u8>, PassView)>,
    ),
    rest: Seq<u8>,
)
    requires
        sp_body(s, v) == Ok::<_, ReadError>(((f, b), rest)),
        v2 != MinecraftVersion::V1_18_30,
    ensures
        is_utf8(f.0),
        match f.1 {
            Some(p) => is_utf8(p),
            None => true,
        },
        wf_tbl::<(Vec<u8>, SamplerDefinition)>(f.2, v2),
        wf_tbl::<(Vec<u8>, PropertyField)>(b.0, v2),
        wf_opt_pairs(b.1, v2),
        wf_tbl::<(Vec<u8>, Pass)>(b.2, v2),
{
    match sp_body_front(s, v) {
        Err(_) => {
            assert(false);
        },
        Ok((fr, s4)) => {
            match sp_string(s) {
                Err(_) => {
                    assert(false);
                },
                Ok((name, s1)) => {
                    crate::common::lemma_string_utf8(s, name, s1);
                    match sp_opt_string(s1) {
                        Err(_) => {
                            assert(false);
                        },
                        Ok((parent, s2)) => {
                            crate::common::lemma_opt_string_utf8(s1, parent, s2);
                            match sp_u8(s2) {
                                Err(_) => {
                                    assert(false);
                                },
                                Ok((n, s3)) => {
                                    match sp_table::<(Vec<u8>, SamplerDefinition)>(
                                        s3,
                                        n as nat,
                                        v,
                                    ) {
                                        Err(_) => {
                                            assert(false);
                                        },
                                        Ok((samplers, s4b)) => {
                                            crate::table::lemma_table_parse_wf::<
                                                (Vec<u8>, SamplerDefinition),
                                            >(s3, n as nat, v, v2, samplers, s4b);
                                        },
                                    }
                                },
                            }
                        },
                    }
                },
            }
            match sp_body_back(s4, v, overrides_gate(v, fr.0)) {
                Err(_) => {
                    assert(false);
                },
                Ok((bk, s6)) => {
                    match sp_u16(s4) {
                        Err(_) => {
                            assert(false);
                        },
                        Ok((pn, t1)) => {
                            match sp_table::<(Vec<u8>, PropertyField)>(t1, pn as nat, v) {
                                Err(_) => {
                                    assert(false);
                                },
                                Ok((props, t2)) => {
                                    crate::table::lemma_table_parse_wf::<
                                        (Vec<u8>, PropertyField),
                                    >(t1, pn as nat, v, v2, props, t2);
                                    match sp_overrides(t2, v, overrides_gate(v, fr.0)) {
                                        Err(_) => {
                                            assert(false);
                                        },
                                        Ok((ovr, t3)) => {
                                            if overrides_gate(v, fr.0) {
                                                match sp_u16(t2) {
                                                    Err(_) => {
                                                        assert(false);
                                                    },
                                                    Ok((on, t2b)) => {
                                                        match sp_table::<(Vec<u8>, Vec<u8>)>(
                                                            t2b,
                                                            on as nat,
                                                            v,
                                                        ) {
                                                            Err(_) => {
                                                                assert(false);
                                                            },
                                                            Ok((otbl, t2c)) => {
                                                                crate::table::lemma_table_parse_wf::<
                                                                    (Vec<u8>, Vec<u8>),
                                                                >(t2b, on as nat, v, v2, otbl, t2c);
                                                            },
                                                        }
                                                    },
                                                }
                                            }
                                            match sp_u16(t3) {
                                                Err(_) => {
                                                    assert(false);
                                                },
                                                Ok((cn, t4)) => {
                                                    match sp_table::<(Vec<u8>, Pass)>(
                                                        t4,
                                                        cn as nat,
                                                        v,
                                                    ) {
                                                        Err(_) => {
                                                            assert(false);
                                                        },
                                                        Ok((passes, t5)) => {
                                                            crate::table::lemma_table_parse_wf::<
                                                                (Vec<u8>, Pass),
                                                            >(t4, cn as nat, v, v2, passes, t5);
                                                        },
                                                    }
                                                },
                                            }
                                        },
                                    }
                                },
                            }
                        },
                    }
                },
            }
        },
    }
}

/// A material the parser accepted at any schema is well formed for
/// every schema other than the oldest. (The oldest additionally asks
/// each pass bitset length to carry the marker byte its reader peeks
/// for, which only a parse at that very schema establishes.)
#[verifier::rlimit(100)]
#[verifier::spinoff_prover]
pub proof fn lemma_cmd_parse_wf(
    s: Seq<u8>,
    v: MinecraftVersion,
    v2: MinecraftVersion,
    t: MaterialView,
    rest: Seq<u8>,
)
    requires
        sp_cmd(s, v) == Ok::<(MaterialView, Seq<u8>), ReadError>((t, rest)),
        v2 != MinecraftVersion::V1_18_30,
    ensures
        wf_cmd(t, v2),
{
    match sp_u64(s) {
        Err(_) => {
            assert(false);
        },
        Ok((magic, s1)) => {
            match sp_string(s1) {
                Err(_) => {
                    assert(false);
                },
                Ok((bn, s2)) => {
                    match sp_u64(s2) {
                        Err(_) => {
                            assert(false);
                        },
                        Ok((version, s3)) => {
                            match sp_encryption_variant(s3) {
                                Err(_) => {
                                    assert(false);
                                },
                                Ok((ev, s4)) => {
                                    match ev {
                                        EncryptionVariant::NoEncryption => {
                                            match sp_body(s4, v) {
                                                Err(_) => {
                                                    assert(false);
                                                },
                                                Ok(((f, b), s5)) => {
                                                    lemma_body_parse_wf(s4, v, v2, f, b, s5);
                                                },
                                            }
                                        },
                                        EncryptionVariant::SimplePassphrase => {
                                            assert(false);
                                        },
                                        EncryptionVariant::KeyPair => {
                                            lemma_cmd_encrypted_parse_wf(s4, v, v2, version, t, rest);
                                        },
                                    }
                                },
                            }
                        },
                    }
                },
            }
        },
    }
}

proof fn lemma_cmd_encrypted_parse_wf(
    s: Seq<u8>,
    v: MinecraftVersion,
    v2: MinecraftVersion,
    version: u64,
    t: MaterialView,
    rest: Seq<u8>,
)
    requires
        sp_cmd_encrypted(s, v, version) == Ok::<(MaterialView, Seq<u8>), ReadError>((t, rest)),
        v2 != MinecraftVersion::V1_18_30,
    ensures
        wf_cmd(t, v2),
{
    match sp_byte_array(s) {
        Err(_) => {
            assert(false);
        },
        Ok((key, s5)) => {
            match sp_byte_array(s5) {
                Err(_) => {
                    assert(false);
                },
                Ok((nonce, s6)) => {
                    match sp_byte_array(s6) {
                        Err(_) => {
                            assert(false);
                        },
                        Ok((ct, s7)) => {
                            match gcm_plaintext(key, nonce.take(12), ct) {
                                None => {
                                    assert(false);
                                },
                                Some(pt) => {
                                    match sp_body(pt, v) {
                                        Err(_) => {
                                            assert(false);
                                        },
                                        Ok(((f, b), s8)) => {
                                            lemma_body_parse_wf(pt, v, v2, f, b, s8);
                                        },
                                    }
                                },
                            }
                        },
                    }
                },
            }
        },
    }
}

/// Re-emitting a parsed material at any schema other than the oldest
/// parses back cleanly there and re-emits to the same bytes.
pub proof fn lemma_parse_then_reemit(
    s: Seq<u8>,
    v: MinecraftVersion,
    t: MaterialView,
    rest: Seq<u8>,
    v2: MinecraftVersion,
)
    requires
        sp_cmd(s, v) == Ok::<(MaterialView, Seq<u8>), ReadError>((t, rest)),
        v2 != MinecraftVersion::V1_18_30,
    ensures
        match se_cmd(t, v2) {
            Ok(b) => {
                &&& sp_cmd(b, v2) == Ok::<(MaterialView, Seq<u8>), ReadError>(
                    (norm_cmd(t, v2), Seq::<u8>::empty()),
                )
                &&& se_cmd(norm_cmd(t, v2), v2) == Ok::<Seq<u8>, WriteError>(b)
            },
            Err(_) => true,
        },
{
    lemma_cmd_parse_wf(s, v, v2, t, rest);
    lemma_reemit_round_trip(t, v2);
}

} // verus!
