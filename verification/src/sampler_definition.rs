use vstd::prelude::*;
use crate::common::{
    sp_u8, sp_u16, sp_u32, sp_bool, sp_string, sp_opt_string, se_u8, se_u16, se_u32, se_bool,
    se_string, se_opt_string, is_utf8, read_u8, read_u16, read_u32, read_bool, read_string,
    read_opt_string, write_u8, write_u16, write_u32, write_bool, write_string, optional_write,
    lemma_u8_rt, lemma_u16_rt, lemma_u32_rt, lemma_bool_rt, lemma_string_rt, lemma_opt_string_rt,
    lemma_string_utf8, lemma_opt_string_utf8, seq_assoc,
};
use crate::error::{ReadError, WriteError, TagKind, CompatReason};
use crate::schema::MinecraftVersion;
use crate::table::TableEntry;

verus! {

// ---------------------------------------------------------------------
// SamplerAccess
// ---------------------------------------------------------------------

#[derive(Clone, Copy, PartialEq, Eq, Structural, Debug)]
pub enum SamplerAccess {
    NoAccess,
    Read,
    Write,
    ReadWrite,
}

impl SamplerAccess {
    pub open spec fn as_u8_spec(&self) -> u8 {
        match self {
            SamplerAccess::NoAccess => 0,
            SamplerAccess::Read => 1,
            SamplerAccess::Write => 2,
            SamplerAccess::ReadWrite => 3,
        }
    }

    #[verifier::when_used_as_spec(as_u8_spec)]
    pub fn as_u8(&self) -> (r: u8)
        ensures
            r == self.as_u8_spec(),
    {
        match self {
            SamplerAccess::NoAccess => 0,
            SamplerAccess::Read => 1,
            SamplerAccess::Write => 2,
            SamplerAccess::ReadWrite => 3,
        }
    }
}

pub open spec fn sp_sampler_access(s: Seq<u8>) -> Result<(SamplerAccess, Seq<u8>), ReadError> {
    match sp_u8(s) {
        Ok((b, s1)) => if b == 0 {
            Ok((SamplerAccess::NoAccess, s1))
        } else if b == 1 {
            Ok((SamplerAccess::Read, s1))
        } else if b == 2 {
            Ok((SamplerAccess::Write, s1))
        } else if b == 3 {
            Ok((SamplerAccess::ReadWrite, s1))
        } else {
            Err(ReadError::InvalidTag { which: TagKind::SamplerAccess, value: b as u32 })
        },
        Err(e) => Err(e),
    }
}

pub fn read_sampler_access(data: &Vec<u8>, off: usize) -> (r: Result<
    (SamplerAccess, usize),
    ReadError,
>)
    requires
        off <= data@.len(),
    ensures
        match r {
            Ok((t, off2)) => off <= off2 <= data@.len() && sp_sampler_access(
                data@.skip(off as int),
            ) == Ok::<_, ReadError>((t, data@.skip(off2 as int))),
            Err(e) => sp_sampler_access(data@.skip(off as int)) == Err::<
                (SamplerAccess, Seq<u8>),
                _,
            >(e),
        },
{
    match read_u8(data, off) {
        Ok((b, o1)) => if b == 0 {
            Ok((SamplerAccess::NoAccess, o1))
        } else if b == 1 {
            Ok((SamplerAccess::Read, o1))
        } else if b == 2 {
            Ok((SamplerAccess::Write, o1))
        } else if b == 3 {
            Ok((SamplerAccess::ReadWrite, o1))
        } else {
            Err(ReadError::InvalidTag { which: TagKind::SamplerAccess, value: b as u32 })
        },
        Err(e) => Err(e),
    }
}

pub proof fn lemma_sampler_access_rt(t: SamplerAccess, rest: Seq<u8>)
    ensures
        sp_sampler_access(se_u8(t.as_u8_spec()) + rest) == Ok::<_, ReadError>((t, rest)),
{
    lemma_u8_rt(t.as_u8_spec(), rest);
}

// ---------------------------------------------------------------------
// Precision
// ---------------------------------------------------------------------

#[derive(Clone, Copy, PartialEq, Eq, Structural, Debug)]
pub enum Precision {
    Low,
    Medium,
    High,
}

impl Precision {
    pub open spec fn as_u8_spec(&self) -> u8 {
        match self {
            Precision::Low => 0,
            Precision::Medium => 1,
            Precision::High => 2,
        }
    }

    #[verifier::when_used_as_spec(as_u8_spec)]
    pub fn as_u8(&self) -> (r: u8)
        ensures
            r == self.as_u8_spec(),
    {
        match self {
            Precision::Low => 0,
            Precision::Medium => 1,
            Precision::High => 2,
        }
    }
}

pub open spec fn sp_precision(s: Seq<u8>) -> Result<(Precision, Seq<u8>), ReadError> {
    match sp_u8(s) {
        Ok((b, s1)) => if b == 0 {
            Ok((Precision::Low, s1))
        } else if b == 1 {
            Ok((Precision::Medium, s1))
        } else if b == 2 {
            Ok((Precision::High, s1))
        } else {
            Err(ReadError::InvalidTag { which: TagKind::Precision, value: b as u32 })
        },
        Err(e) => Err(e),
    }
}

pub fn read_precision(data: &Vec<u8>, off: usize) -> (r: Result<(Precision, usize), ReadError>)
    requires
        off <= data@.len(),
    ensures
        match r {
            Ok((t, off2)) => off <= off2 <= data@.len() && sp_precision(data@.skip(off as int))
                == Ok::<_, ReadError>((t, data@.skip(off2 as int))),
            Err(e) => sp_precision(data@.skip(off as int)) == Err::<(Precision, Seq<u8>), _>(e),
        },
{
    match read_u8(data, off) {
        Ok((b, o1)) => if b == 0 {
            Ok((Precision::Low, o1))
        } else if b == 1 {
            Ok((Precision::Medium, o1))
        } else if b == 2 {
            Ok((Precision::High, o1))
        } else {
            Err(ReadError::InvalidTag { which: TagKind::Precision, value: b as u32 })
        },
        Err(e) => Err(e),
    }
}

pub proof fn lemma_precision_rt(t: Precision, rest: Seq<u8>)
    ensures
        sp_precision(se_u8(t.as_u8_spec()) + rest) == Ok::<_, ReadError>((t, rest)),
{
    lemma_u8_rt(t.as_u8_spec(), rest);
}

// ---------------------------------------------------------------------
// SamplerType, with the cross-schema shift
// ---------------------------------------------------------------------

#[derive(Clone, Copy, PartialEq, Eq, Structural, Debug)]
pub enum SamplerType {
    Type2D,
    Type2DArray,
    Type2DExternal,
    Type3D,
    TypeCube,
    TypeSamplerCubeArray,
    TypeStructuredBuffer,
    TypeRawBuffer,
    TypeAccelerationStructure,
    Type2DShadow,
    Type2DArrayShadow,
}

impl SamplerType {
    /// The canonical ordinal: the on-disk value of the 1.21.20 layout,
    /// where `TypeSamplerCubeArray` sits at 5.
    pub open spec fn ordinal_spec(&self) -> u8 {
        match self {
            SamplerType::Type2D => 0,
            SamplerType::Type2DArray => 1,
            SamplerType::Type2DExternal => 2,
            SamplerType::Type3D => 3,
            SamplerType::TypeCube => 4,
            SamplerType::TypeSamplerCubeArray => 5,
            SamplerType::TypeStructuredBuffer => 6,
            SamplerType::TypeRawBuffer => 7,
            SamplerType::TypeAccelerationStructure => 8,
            SamplerType::Type2DShadow => 9,
            SamplerType::Type2DArrayShadow => 10,
        }
    }

    #[verifier::when_used_as_spec(ordinal_spec)]
    pub fn ordinal(&self) -> (r: u8)
        ensures
            r == self.ordinal_spec(),
    {
        match self {
            SamplerType::Type2D => 0,
            SamplerType::Type2DArray => 1,
            SamplerType::Type2DExternal => 2,
            SamplerType::Type3D => 3,
            SamplerType::TypeCube => 4,
            SamplerType::TypeSamplerCubeArray => 5,
            SamplerType::TypeStructuredBuffer => 6,
            SamplerType::TypeRawBuffer => 7,
            SamplerType::TypeAccelerationStructure => 8,
            SamplerType::Type2DShadow => 9,
            SamplerType::Type2DArrayShadow => 10,
        }
    }

    pub open spec fn to_u8_spec(&self, version: MinecraftVersion) -> Result<u8, WriteError> {
        if version != MinecraftVersion::V1_21_20 {
            if self == SamplerType::TypeSamplerCubeArray {
                Err(WriteError::CompatRefusal { why: CompatReason::SamplerCubeArrayUnsupported })
            } else if self.ordinal_spec() >= 6 {
                Ok((self.ordinal_spec() - 1) as u8)
            } else {
                Ok(self.ordinal_spec())
            }
        } else {
            Ok(self.ordinal_spec())
        }
    }

    /// On-disk value of this type at the given schema. On every schema
    /// other than 1.21.20 the stored integer of a type above
    /// `TypeSamplerCubeArray` is its canonical ordinal minus one, and
    /// `TypeSamplerCubeArray` itself cannot be stored at all.
    pub fn to_u8(&self, version: MinecraftVersion) -> (r: Result<u8, WriteError>)
        ensures
            r == self.to_u8_spec(version),
            version == MinecraftVersion::V1_21_20 ==> r == Ok::<u8, WriteError>(
                self.ordinal_spec(),
            ),
            version != MinecraftVersion::V1_21_20 && self == SamplerType::TypeSamplerCubeArray
                ==> r == Err::<u8, WriteError>(
                WriteError::CompatRefusal { why: CompatReason::SamplerCubeArrayUnsupported },
            ),
            version != MinecraftVersion::V1_21_20 && self.ordinal_spec() >= 5 && self
                != SamplerType::TypeSamplerCubeArray ==> r == Ok::<u8, WriteError>(
                (self.ordinal_spec() - 1) as u8,
            ),
            version != MinecraftVersion::V1_21_20 && self.ordinal_spec() < 5 ==> r == Ok::<
                u8,
                WriteError,
            >(self.ordinal_spec()),
    {
        let ord = self.ordinal();
        if version != MinecraftVersion::V1_21_20 {
            if ord == 5 {
                Err(WriteError::CompatRefusal { why: CompatReason::SamplerCubeArrayUnsupported })
            } else if ord >= 6 {
                Ok(ord - 1)
            } else {
                Ok(ord)
            }
        } else {
            Ok(ord)
        }
    }
}

/// The on-disk byte, shifted up by one for values at or above 5 on
/// schemas other than 1.21.20, mapped to the canonical enumeration.
pub open spec fn sp_sampler_type(s: Seq<u8>, v: MinecraftVersion) -> Result<
    (SamplerType, Seq<u8>),
    ReadError,
> {
    match sp_u8(s) {
        Ok((raw, s1)) => {
            let c: int = if v != MinecraftVersion::V1_21_20 && raw >= 5 {
                raw + 1
            } else {
                raw as int
            };
            if c == 0 {
                Ok((SamplerType::Type2D, s1))
            } else if c == 1 {
                Ok((SamplerType::Type2DArray, s1))
            } else if c == 2 {
                Ok((SamplerType::Type2DExternal, s1))
            } else if c == 3 {
                Ok((SamplerType::Type3D, s1))
            } else if c == 4 {
                Ok((SamplerType::TypeCube, s1))
            } else if c == 5 {
                Ok((SamplerType::TypeSamplerCubeArray, s1))
            } else if c == 6 {
                Ok((SamplerType::TypeStructuredBuffer, s1))
            } else if c == 7 {
                Ok((SamplerType::TypeRawBuffer, s1))
            } else if c == 8 {
                Ok((SamplerType::TypeAccelerationStructure, s1))
            } else if c == 9 {
                Ok((SamplerType::Type2DShadow, s1))
            } else if c == 10 {
                Ok((SamplerType::Type2DArrayShadow, s1))
            } else {
                Err(ReadError::InvalidTag { which: TagKind::SamplerType, value: c as u32 })
            }
        },
        Err(e) => Err(e),
    }
}

pub fn read_sampler_type(data: &Vec<u8>, off: usize, v: MinecraftVersion) -> (r: Result<
    (SamplerType, usize),
    ReadError,
>)
    requires
        off <= data@.len(),
    ensures
        match r {
            Ok((t, off2)) => off <= off2 <= data@.len() && sp_sampler_type(
                data@.skip(off as int),
                v,
            ) == Ok::<_, ReadError>((t, data@.skip(off2 as int))),
            Err(e) => sp_sampler_type(data@.skip(off as int), v) == Err::<
                (SamplerType, Seq<u8>),
                _,
            >(e),
        },
{
    match read_u8(data, off) {
        Ok((raw, o1)) => {
            let c: u16 = if v != MinecraftVersion::V1_21_20 && raw >= 5 {
                raw as u16 + 1
            } else {
                raw as u16
            };
            if c == 0 {
                Ok((SamplerType::Type2D, o1))
            } else if c == 1 {
                Ok((SamplerType::Type2DArray, o1))
            } else if c == 2 {
                Ok((SamplerType::Type2DExternal, o1))
            } else if c == 3 {
                Ok((SamplerType::Type3D, o1))
            } else if c == 4 {
                Ok((SamplerType::TypeCube, o1))
            } else if c == 5 {
                Ok((SamplerType::TypeSamplerCubeArray, o1))
            } else if c == 6 {
                Ok((SamplerType::TypeStructuredBuffer, o1))
            } else if c == 7 {
                Ok((SamplerType::TypeRawBuffer, o1))
            } else if c == 8 {
                Ok((SamplerType::TypeAccelerationStructure, o1))
            } else if c == 9 {
                Ok((SamplerType::Type2DShadow, o1))
            } else if c == 10 {
                Ok((SamplerType::Type2DArrayShadow, o1))
            } else {
                Err(ReadError::InvalidTag { which: TagKind::SamplerType, value: c as u32 })
            }
        },
        Err(e) => Err(e),
    }
}

/// What `to_u8` stores, `sp_sampler_type` reads back as the same
/// symbol, at every schema that accepts the symbol at all.
pub proof fn lemma_sampler_type_rt(t: SamplerType, v: MinecraftVersion, rest: Seq<u8>)
    ensures
        match t.to_u8_spec(v) {
            Ok(b) => sp_sampler_type(se_u8(b) + rest, v) == Ok::<_, ReadError>((t, rest)),
            Err(_) => true,
        },
{
    match t.to_u8_spec(v) {
        Ok(b) => {
            lemma_u8_rt(b, rest);
        },
        Err(_) => {},
    }
}

// ---------------------------------------------------------------------
// CustomTypeInfo
// ---------------------------------------------------------------------

#[derive(Debug)]
pub struct CustomTypeInfo {
    pub name: Vec<u8>,
    pub size: u32,
}

#[verifier::ext_equal]
pub ghost struct CustomTypeInfoView {
    pub name: Seq<u8>,
    pub size: u32,
}

impl View for CustomTypeInfo {
    type V = CustomTypeInfoView;

    open spec fn view(&self) -> CustomTypeInfoView {
        CustomTypeInfoView { name: self.name@, size: self.size }
    }
}

pub open spec fn sp_custom_type_info(s: Seq<u8>) -> Result<(CustomTypeInfoView, Seq<u8>), ReadError> {
    match sp_string(s) {
        Ok((name, s1)) => match sp_u32(s1) {
            Ok((size, s2)) => Ok((CustomTypeInfoView { name, size }, s2)),
            Err(e) => Err(e),
        },
        Err(e) => Err(e),
    }
}

pub open spec fn se_custom_type_info(t: CustomTypeInfoView) -> Result<Seq<u8>, WriteError> {
    match se_string(t.name) {
        Ok(nb) => Ok(nb + se_u32(t.size)),
        Err(e) => Err(e),
    }
}

impl CustomTypeInfo {
    pub fn read(data: &Vec<u8>, off: usize) -> (r: Result<(Self, usize), ReadError>)
        requires
            off <= data@.len(),
        ensures
            match r {
                Ok((t, off2)) => off <= off2 <= data@.len() && sp_custom_type_info(
                    data@.skip(off as int),
                ) == Ok::<_, ReadError>((t@, data@.skip(off2 as int))),
                Err(e) => sp_custom_type_info(data@.skip(off as int)) == Err::<
                    (CustomTypeInfoView, Seq<u8>),
                    _,
                >(e),
            },
    {
        match read_string(data, off) {
            Ok((name, o1)) => match read_u32(data, o1) {
                Ok((size, o2)) => Ok((CustomTypeInfo { name, size }, o2)),
                Err(e) => Err(e),
            },
            Err(e) => Err(e),
        }
    }

    pub fn write(&self, out: &mut Vec<u8>) -> (r: Result<(), WriteError>)
        ensures
            match se_custom_type_info(self@) {
                Ok(b) => r == Ok::<(), WriteError>(()) && final(out)@ == old(out)@ + b,
                Err(e) => r == Err::<(), WriteError>(e),
            },
    {
        match write_string(&self.name, out) {
            Ok(()) => {
                write_u32(out, self.size);
                proof {
                    match se_string(self.name@) {
                        Ok(nb) => {
                            assert(out@ =~= old(out)@ + (nb + se_u32(self.size)));
                        },
                        Err(_) => {},
                    }
                }
                Ok(())
            },
            Err(e) => Err(e),
        }
    }
}

pub proof fn lemma_custom_type_info_rt(t: CustomTypeInfoView, rest: Seq<u8>)
    requires
        is_utf8(t.name),
    ensures
        match se_custom_type_info(t) {
            Ok(b) => sp_custom_type_info(b + rest) == Ok::<_, ReadError>((t, rest)),
            Err(_) => true,
        },
{
    match se_string(t.name) {
        Ok(nb) => {
            assert((nb + se_u32(t.size)) + rest =~= nb + (se_u32(t.size) + rest));
            lemma_string_rt(t.name, se_u32(t.size) + rest);
            lemma_u32_rt(t.size, rest);
        },
        Err(_) => {},
    }
}

// ---------------------------------------------------------------------
// SamplerDefinition
// ---------------------------------------------------------------------

/// One texture sampler binding, with its schema-conditional fields.
#[derive(Debug)]
pub struct SamplerDefinition {
    pub reg: u16,
    pub access: SamplerAccess,
    pub precision: Precision,
    pub allow_unordered_access: u8,
    pub sampler_type: SamplerType,
    pub texture_format: Vec<u8>,
    pub unknown_int: u32,
    pub unknown_byte: u8,
    pub sampler_state: Option<u8>,
    pub default_texture: Option<Vec<u8>>,
    pub unknown_string: Option<Vec<u8>>,
    pub custom_type_info: Option<CustomTypeInfo>,
}

#[verifier::ext_equal]
pub ghost struct SamplerDefinitionView {
    pub reg: u16,
    pub access: SamplerAccess,
    pub precision: Precision,
    pub allow_unordered_access: u8,
    pub sampler_type: SamplerType,
    pub texture_format: Seq<u8>,
    pub unknown_int: u32,
    pub unknown_byte: u8,
    pub sampler_state: Option<u8>,
    pub default_texture: Option<Seq<u8>>,
    pub unknown_string: Option<Seq<u8>>,
    pub custom_type_info: Option<CustomTypeInfoView>,
}

impl View for SamplerDefinition {
    type V = SamplerDefinitionView;

    open spec fn view(&self) -> SamplerDefinitionView {
        SamplerDefinitionView {
            reg: self.reg,
            access: self.access,
            precision: self.precision,
            allow_unordered_access: self.allow_unordered_access,
            sampler_type: self.sampler_type,
            texture_format: self.texture_format@,
            unknown_int: self.unknown_int,
            unknown_byte: self.unknown_byte,
            sampler_state: self.sampler_state,
            default_texture: match self.default_texture {
                Some(d) => Some(d@),
                None => None,
            },
            unknown_string: match self.unknown_string {
                Some(d) => Some(d@),
                None => None,
            },
            custom_type_info: match self.custom_type_info {
                Some(c) => Some(c@),
                None => None,
            },
        }
    }
}

/// Does schema `v` store the opaque string option of a sampler?
pub open spec fn sampler_has_unknown_string(v: MinecraftVersion) -> bool {
    v == MinecraftVersion::V1_20_80 || v == MinecraftVersion::V1_21_20
}

pub open spec fn sp_sampler_front(s: Seq<u8>, v: MinecraftVersion) -> Result<
    ((u16, SamplerAccess, Precision, u8, SamplerType, Seq<u8>, u32), Seq<u8>),
    ReadError,
> {
    let regres = if v == MinecraftVersion::V1_18_30 {
        match sp_u8(s) {
            Ok((b, s1)) => Ok((b as u16, s1)),
            Err(e) => Err(e),
        }
    } else {
        sp_u16(s)
    };
    match regres {
        Ok((reg, s1)) => match sp_sampler_access(s1) {
            Ok((access, s2)) => match sp_precision(s2) {
                Ok((precision, s3)) => match sp_u8(s3) {
                    Ok((aua, s4)) => match sp_sampler_type(s4, v) {
                        Ok((st, s5)) => match sp_string(s5) {
                            Ok((tf, s6)) => match sp_u32(s6) {
                                Ok((ui, s7)) => Ok(
                                    ((reg, access, precision, aua, st, tf, ui), s7),
                                ),
                                Err(e) => Err(e),
                            },
                            Err(e) => Err(e),
                        },
                        Err(e) => Err(e),
                    },
                    Err(e) => Err(e),
                },
                Err(e) => Err(e),
            },
            Err(e) => Err(e),
        },
        Err(e) => Err(e),
    }
}

pub open spec fn sp_sampler_back(s: Seq<u8>, v: MinecraftVersion, reg: u16) -> Result<
    ((u8, Option<u8>, Option<Seq<u8>>, Option<Seq<u8>>, Option<CustomTypeInfoView>), Seq<u8>),
    ReadError,
> {
    let ubres = if v != MinecraftVersion::V1_18_30 {
        sp_u8(s)
    } else {
        Ok(((reg % 256) as u8, s))
    };
    match ubres {
        Ok((ub, s8)) => {
            let ssres = if v == MinecraftVersion::V1_21_20 {
                sp_opt_u8(s8)
            } else {
                Ok((None::<u8>, s8))
            };
            match ssres {
                Ok((ss, s10)) => match sp_opt_string(s10) {
                    Ok((dt, s11)) => {
                        let usres = if sampler_has_unknown_string(v) {
                            sp_opt_string(s11)
                        } else {
                            Ok((None::<Seq<u8>>, s11))
                        };
                        match usres {
                            Ok((us, s12)) => match sp_opt_custom_type_info(s12) {
                                Ok((cti, s13)) => Ok(((ub, ss, dt, us, cti), s13)),
                                Err(e) => Err(e),
                            },
                            Err(e) => Err(e),
                        }
                    },
                    Err(e) => Err(e),
                },
                Err(e) => Err(e),
            }
        },
        Err(e) => Err(e),
    }
}

/// An optional byte: a boolean byte, then the byte when present.
pub open spec fn sp_opt_u8(s: Seq<u8>) -> Result<(Option<u8>, Seq<u8>), ReadError> {
    match sp_bool(s) {
        Ok((p, s1)) => if p {
            match sp_u8(s1) {
                Ok((b, s2)) => Ok((Some(b), s2)),
                Err(e) => Err(e),
            }
        } else {
            Ok((None, s1))
        },
        Err(e) => Err(e),
    }
}

pub open spec fn sp_opt_custom_type_info(s: Seq<u8>) -> Result<
    (Option<CustomTypeInfoView>, Seq<u8>),
    ReadError,
> {
    match sp_bool(s) {
        Ok((hc, s1)) => if hc {
            match sp_custom_type_info(s1) {
                Ok((cti, s2)) => Ok((Some(cti), s2)),
                Err(e) => Err(e),
            }
        } else {
            Ok((None, s1))
        },
        Err(e) => Err(e),
    }
}

pub proof fn lemma_opt_u8_rt(o: Option<u8>, rest: Seq<u8>)
    ensures
        sp_opt_u8(se_opt_u8(o) + rest) == Ok::<_, ReadError>((o, rest)),
{
    match o {
        Some(b) => {
            seq_assoc(se_bool(true), se_u8(b), rest);
            lemma_bool_rt(true, se_u8(b) + rest);
            lemma_u8_rt(b, rest);
        },
        None => {
            lemma_bool_rt(false, rest);
        },
    }
}

pub proof fn lemma_opt_custom_type_info_rt(o: Option<CustomTypeInfoView>, rest: Seq<u8>)
    requires
        match o {
            Some(c) => is_utf8(c.name),
            None => true,
        },
    ensures
        match se_opt_custom(o) {
            Ok(b) => sp_opt_custom_type_info(b + rest) == Ok::<_, ReadError>((o, rest)),
            Err(_) => true,
        },
{
    match o {
        Some(c) => {
            match se_custom_type_info(c) {
                Ok(cb) => {
                    seq_assoc(se_bool(true), cb, rest);
                    lemma_bool_rt(true, cb + rest);
                    lemma_custom_type_info_rt(c, rest);
                },
                Err(_) => {},
            }
        },
        None => {
            lemma_bool_rt(false, rest);
        },
    }
}

pub open spec fn sp_sampler(s: Seq<u8>, v: MinecraftVersion) -> Result<
    (SamplerDefinitionView, Seq<u8>),
    ReadError,
> {
    match sp_sampler_front(s, v) {
        Ok((f, s7)) => match sp_sampler_back(s7, v, f.0) {
            Ok((b, s14)) => Ok(
                (
                    SamplerDefinitionView {
                        reg: f.0,
                        access: f.1,
                        precision: f.2,
                        allow_unordered_access: f.3,
                        sampler_type: f.4,
                        texture_format: f.5,
                        unknown_int: f.6,
                        unknown_byte: b.0,
                        sampler_state: b.1,
                        default_texture: b.2,
                        unknown_string: b.3,
                        custom_type_info: b.4,
                    },
                    s14,
                ),
            ),
            Err(e) => Err(e),
        },
        Err(e) => Err(e),
    }
}

pub open spec fn se_opt_u8(o: Option<u8>) -> Seq<u8> {
    match o {
        Some(b) => se_bool(true) + se_u8(b),
        None => se_bool(false),
    }
}

pub open spec fn se_opt_custom(o: Option<CustomTypeInfoView>) -> Result<Seq<u8>, WriteError> {
    match o {
        Some(c) => match se_custom_type_info(c) {
            Ok(b) => Ok(se_bool(true) + b),
            Err(e) => Err(e),
        },
        None => Ok(se_bool(false)),
    }
}

pub open spec fn se_sampler_front(t: SamplerDefinitionView, v: MinecraftVersion) -> Result<
    Seq<u8>,
    WriteError,
> {
    let regres: Result<Seq<u8>, WriteError> = if v == MinecraftVersion::V1_18_30 {
        if t.reg > 255 {
            Err(WriteError::IntOverflow)
        } else {
            Ok(se_u8(t.reg as u8))
        }
    } else {
        Ok(se_u16(t.reg))
    };
    match regres {
        Ok(b_reg) => match t.sampler_type.to_u8_spec(v) {
            Ok(st_byte) => match se_string(t.texture_format) {
                Ok(b_tf) => Ok(
                    b_reg + se_u8(t.access.as_u8_spec()) + se_u8(t.precision.as_u8_spec()) + se_u8(
                        t.allow_unordered_access,
                    ) + se_u8(st_byte) + b_tf + se_u32(t.unknown_int),
                ),
                Err(e) => Err(e),
            },
            Err(e) => Err(e),
        },
        Err(e) => Err(e),
    }
}

pub open spec fn se_sampler_back(t: SamplerDefinitionView, v: MinecraftVersion) -> Result<
    Seq<u8>,
    WriteError,
> {
    match se_opt_string(t.default_texture) {
        Ok(b_dt) => {
            let usres = if sampler_has_unknown_string(v) {
                se_opt_string(t.unknown_string)
            } else {
                Ok(Seq::<u8>::empty())
            };
            match usres {
                Ok(b_us) => match se_opt_custom(t.custom_type_info) {
                    Ok(b_cti) => Ok(
                        (if v != MinecraftVersion::V1_18_30 {
                            se_u8(t.unknown_byte)
                        } else {
                            Seq::<u8>::empty()
                        }) + (if v == MinecraftVersion::V1_21_20 {
                            se_opt_u8(t.sampler_state)
                        } else {
                            Seq::<u8>::empty()
                        }) + b_dt + b_us + b_cti,
                    ),
                    Err(e) => Err(e),
                },
                Err(e) => Err(e),
            }
        },
        Err(e) => Err(e),
    }
}

pub open spec fn se_sampler(t: SamplerDefinitionView, v: MinecraftVersion) -> Result<
    Seq<u8>,
    WriteError,
> {
    match se_sampler_front(t, v) {
        Ok(f) => match se_sampler_back(t, v) {
            Ok(b) => Ok(f + b),
            Err(e) => Err(e),
        },
        Err(e) => Err(e),
    }
}

pub open spec fn wf_opt_utf8(o: Option<Seq<u8>>) -> bool {
    match o {
        Some(s) => is_utf8(s),
        None => true,
    }
}

pub open spec fn wf_sampler(t: SamplerDefinitionView) -> bool {
    &&& is_utf8(t.texture_format)
    &&& wf_opt_utf8(t.default_texture)
    &&& wf_opt_utf8(t.unknown_string)
    &&& match t.custom_type_info {
        Some(c) => is_utf8(c.name),
        None => true,
    }
}

/// The sampler as it comes back from its own emission: fields the
/// schema does not store are reconstituted or dropped.
pub open spec fn norm_sampler(t: SamplerDefinitionView, v: MinecraftVersion) -> SamplerDefinitionView {
    SamplerDefinitionView {
        unknown_byte: if v == MinecraftVersion::V1_18_30 {
            (t.reg % 256) as u8
        } else {
            t.unknown_byte
        },
        sampler_state: if v == MinecraftVersion::V1_21_20 {
            t.sampler_state
        } else {
            None
        },
        unknown_string: if sampler_has_unknown_string(v) {
            t.unknown_string
        } else {
            None
        },
        ..t
    }
}

impl SamplerDefinition {
    fn read_front(data: &Vec<u8>, off: usize, v: MinecraftVersion) -> (r: Result<
        ((u16, SamplerAccess, Precision, u8, SamplerType, Vec<u8>, u32), usize),
        ReadError,
    >)
        requires
            off <= data@.len(),
        ensures
            match r {
                Ok((f, off2)) => off <= off2 <= data@.len() && sp_sampler_front(
                    data@.skip(off as int),
                    v,
                ) == Ok::<_, ReadError>(
                    ((f.0, f.1, f.2, f.3, f.4, f.5@, f.6), data@.skip(off2 as int)),
                ),
                Err(e) => sp_sampler_front(data@.skip(off as int), v) == Err::<
                    ((u16, SamplerAccess, Precision, u8, SamplerType, Seq<u8>, u32), Seq<u8>),
                    _,
                >(e),
            },
    {
        let regres = if v == MinecraftVersion::V1_18_30 {
            match read_u8(data, off) {
                Ok((b, o1)) => Ok((b as u16, o1)),
                Err(e) => Err(e),
            }
        } else {
            read_u16(data, off)
        };
        match regres {
            Ok((reg, o1)) => match read_sampler_access(data, o1) {
                Ok((access, o2)) => match read_precision(data, o2) {
                    Ok((precision, o3)) => match read_u8(data, o3) {
                        Ok((aua, o4)) => match read_sampler_type(data, o4, v) {
                            Ok((st, o5)) => match read_string(data, o5) {
                                Ok((tf, o6)) => match read_u32(data, o6) {
                                    Ok((ui, o7)) => Ok(
                                        ((reg, access, precision, aua, st, tf, ui), o7),
                                    ),
                                    Err(e) => Err(e),
                                },
                                Err(e) => Err(e),
                            },
                            Err(e) => Err(e),
                        },
                        Err(e) => Err(e),
                    },
                    Err(e) => Err(e),
                },
                Err(e) => Err(e),
            },
            Err(e) => Err(e),
        }
    }

    fn read_back(data: &Vec<u8>, off: usize, v: MinecraftVersion, reg: u16) -> (r: Result<
        ((u8, Option<u8>, Option<Vec<u8>>, Option<Vec<u8>>, Option<CustomTypeInfo>), usize),
        ReadError,
    >)
        requires
            off <= data@.len(),
        ensures
            match r {
                Ok((b, off2)) => off <= off2 <= data@.len() && sp_sampler_back(
                    data@.skip(off as int),
                    v,
                    reg,
                ) == Ok::<_, ReadError>(
                    (
                        (
                            b.0,
                            b.1,
                            match b.2 {
                                Some(d) => Some(d@),
                                None => None,
                            },
                            match b.3 {
                                Some(d) => Some(d@),
                                None => None,
                            },
                            match b.4 {
                                Some(c) => Some(c@),
                                None => None,
                            },
                        ),
                        data@.skip(off2 as int),
                    ),
                ),
                Err(e) => sp_sampler_back(data@.skip(off as int), v, reg) == Err::<
                    (
                        (
                            u8,
                            Option<u8>,
                            Option<Seq<u8>>,
                            Option<Seq<u8>>,
                            Option<CustomTypeInfoView>,
                        ),
                        Seq<u8>,
                    ),
                    _,
                >(e),
            },
    {
        let ubres = if v != MinecraftVersion::V1_18_30 {
            read_u8(data, off)
        } else {
            Ok(((reg % 256) as u8, off))
        };
        match ubres {
            Ok((ub, o8)) => {
                let ssres: Result<(Option<u8>, usize), ReadError> = if v
                    == MinecraftVersion::V1_21_20 {
                    match read_bool(data, o8) {
                        Ok((p, o9)) => if p {
                            match read_u8(data, o9) {
                                Ok((b, o10)) => Ok((Some(b), o10)),
                                Err(e) => Err(e),
                            }
                        } else {
                            Ok((None, o9))
                        },
                        Err(e) => Err(e),
                    }
                } else {
                    Ok((None, o8))
                };
                match ssres {
                    Ok((ss, o10)) => match read_opt_string(data, o10) {
                        Ok((dt, o11)) => {
                            let usres = if v == MinecraftVersion::V1_20_80 || v
                                == MinecraftVersion::V1_21_20 {
                                read_opt_string(data, o11)
                            } else {
                                Ok((None, o11))
                            };
                            match usres {
                                Ok((us, o12)) => match read_bool(data, o12) {
                                    Ok((hc, o13)) => if hc {
                                        match CustomTypeInfo::read(data, o13) {
                                            Ok((cti, o14)) => Ok(
                                                ((ub, ss, dt, us, Some(cti)), o14),
                                            ),
                                            Err(e) => Err(e),
                                        }
                                    } else {
                                        Ok(((ub, ss, dt, us, None), o13))
                                    },
                                    Err(e) => Err(e),
                                },
                                Err(e) => Err(e),
                            }
                        },
                        Err(e) => Err(e),
                    },
                    Err(e) => Err(e),
                }
            },
            Err(e) => Err(e),
        }
    }

    pub fn read(data: &Vec<u8>, off: usize, v: MinecraftVersion) -> (r: Result<
        (Self, usize),
        ReadError,
    >)
        requires
            off <= data@.len(),
        ensures
            match r {
                Ok((t, off2)) => off <= off2 <= data@.len() && sp_sampler(
                    data@.skip(off as int),
                    v,
                ) == Ok::<_, ReadError>((t@, data@.skip(off2 as int))),
                Err(e) => sp_sampler(data@.skip(off as int), v) == Err::<
                    (SamplerDefinitionView, Seq<u8>),
                    _,
                >(e),
            },
    {
        match Self::read_front(data, off, v) {
            Ok((f, o7)) => match Self::read_back(data, o7, v, f.0) {
                Ok((b, o14)) => {
                    let t = SamplerDefinition {
                        reg: f.0,
                        access: f.1,
                        precision: f.2,
                        allow_unordered_access: f.3,
                        sampler_type: f.4,
                        texture_format: f.5,
                        unknown_int: f.6,
                        unknown_byte: b.0,
                        sampler_state: b.1,
                        default_texture: b.2,
                        unknown_string: b.3,
                        custom_type_info: b.4,
                    };
                    Ok((t, o14))
                },
                Err(e) => Err(e),
            },
            Err(e) => Err(e),
        }
    }

    fn write_front(&self, out: &mut Vec<u8>, version: MinecraftVersion) -> (r: Result<
        (),
        WriteError,
    >)
        ensures
            match se_sampler_front(self@, version) {
                Ok(b) => r == Ok::<(), WriteError>(()) && final(out)@ == old(out)@ + b,
                Err(e) => r == Err::<(), WriteError>(e),
            },
    {
        if version == MinecraftVersion::V1_18_30 {
            if self.reg > 255 {
                return Err(WriteError::IntOverflow);
            }
            write_u8(out, (self.reg % 256) as u8);
        } else {
            write_u16(out, self.reg);
        }
        write_u8(out, self.access.as_u8());
        write_u8(out, self.precision.as_u8());
        write_u8(out, self.allow_unordered_access);
        let st_byte = match self.sampler_type.to_u8(version) {
            Ok(b) => b,
            Err(e) => {
                return Err(e);
            },
        };
        write_u8(out, st_byte);
        match write_string(&self.texture_format, out) {
            Ok(()) => {},
            Err(e) => {
                return Err(e);
            },
        }
        write_u32(out, self.unknown_int);
        proof {
            match se_sampler_front(self@, version) {
                Ok(b) => {
                    assert(out@ =~= old(out)@ + b);
                },
                Err(_) => {
                    assert(false);
                },
            }
        }
        Ok(())
    }

    #[verifier::rlimit(100)]
    fn write_back(&self, out: &mut Vec<u8>, version: MinecraftVersion) -> (r: Result<
        (),
        WriteError,
    >)
        ensures
            match se_sampler_back(self@, version) {
                Ok(b) => r == Ok::<(), WriteError>(()) && final(out)@ == old(out)@ + b,
                Err(e) => r == Err::<(), WriteError>(e),
            },
    {
        if version != MinecraftVersion::V1_18_30 {
            write_u8(out, self.unknown_byte);
        }
        if version == MinecraftVersion::V1_21_20 {
            match self.sampler_state {
                Some(b) => {
                    write_bool(out, true);
                    write_u8(out, b);
                },
                None => {
                    write_bool(out, false);
                },
            }
        }
        match optional_write(&self.default_texture, out) {
            Ok(()) => {},
            Err(e) => {
                return Err(e);
            },
        }
        if version == MinecraftVersion::V1_20_80 || version == MinecraftVersion::V1_21_20 {
            match optional_write(&self.unknown_string, out) {
                Ok(()) => {},
                Err(e) => {
                    return Err(e);
                },
            }
        }
        match &self.custom_type_info {
            Some(c) => {
                write_bool(out, true);
                match c.write(out) {
                    Ok(()) => {},
                    Err(e) => {
                        return Err(e);
                    },
                }
            },
            None => {
                write_bool(out, false);
            },
        }
        proof {
            match se_sampler_back(self@, version) {
                Ok(b) => {
                    assert(out@ =~= old(out)@ + b);
                },
                Err(_) => {
                    assert(false);
                },
            }
        }
        Ok(())
    }

    pub fn write(&self, out: &mut Vec<u8>, version: MinecraftVersion) -> (r: Result<
        (),
        WriteError,
    >)
        ensures
            match se_sampler(self@, version) {
                Ok(b) => r == Ok::<(), WriteError>(()) && final(out)@ == old(out)@ + b,
                Err(e) => r == Err::<(), WriteError>(e),
            },
    {
        match self.write_front(out, version) {
            Ok(()) => {
                match self.write_back(out, version) {
                    Ok(()) => {
                        proof {
                            match se_sampler_front(self@, version) {
                                Ok(f) => {
                                    match se_sampler_back(self@, version) {
                                        Ok(b) => {
                                            assert(out@ =~= old(out)@ + (f + b));
                                        },
                                        Err(_) => {},
                                    }
                                },
                                Err(_) => {},
                            }
                        }
                        Ok(())
                    },
                    Err(e) => Err(e),
                }
            },
            Err(e) => Err(e),
        }
    }
}

#[verifier::rlimit(100)]
#[verifier::spinoff_prover]
proof fn lemma_sampler_front_rt(t: SamplerDefinitionView, v: MinecraftVersion, rest: Seq<u8>)
    requires
        is_utf8(t.texture_format),
    ensures
        match se_sampler_front(t, v) {
            Ok(b) => sp_sampler_front(b + rest, v) == Ok::<_, ReadError>(
                (
                    (
                        t.reg,
                        t.access,
                        t.precision,
                        t.allow_unordered_access,
                        t.sampler_type,
                        t.texture_format,
                        t.unknown_int,
                    ),
                    rest,
                ),
            ),
            Err(_) => true,
        },
{
    match se_sampler_front(t, v) {
        Err(_) => {},
        Ok(b) => {
            let b_reg: Seq<u8> = if v == MinecraftVersion::V1_18_30 {
                se_u8(t.reg as u8)
            } else {
                se_u16(t.reg)
            };
            let st_byte = t.sampler_type.to_u8_spec(v)->Ok_0;
            let b_tf = se_string(t.texture_format)->Ok_0;
            let a1 = b_reg;
            let a2 = se_u8(t.access.as_u8_spec());
            let a3 = se_u8(t.precision.as_u8_spec());
            let a4 = se_u8(t.allow_unordered_access);
            let a5 = se_u8(st_byte);
            let a6 = b_tf;
            let a7 = se_u32(t.unknown_int);
            assert(b == a1 + a2 + a3 + a4 + a5 + a6 + a7);
            let r_ui = rest;
            let r_tf = a7 + r_ui;
            let r_st = a6 + r_tf;
            let r_aua = a5 + r_st;
            let r_prec = a4 + r_aua;
            let r_acc = a3 + r_prec;
            let r_reg = a2 + r_acc;
            seq_assoc(a1 + a2 + a3 + a4 + a5 + a6, a7, rest);
            seq_assoc(a1 + a2 + a3 + a4 + a5, a6, r_tf);
            seq_assoc(a1 + a2 + a3 + a4, a5, r_st);
            seq_assoc(a1 + a2 + a3, a4, r_aua);
            seq_assoc(a1 + a2, a3, r_prec);
            seq_assoc(a1, a2, r_acc);
            assert(b + rest == b_reg + r_reg);
            if v == MinecraftVersion::V1_18_30 {
                lemma_u8_rt(t.reg as u8, r_reg);
            } else {
                lemma_u16_rt(t.reg, r_reg);
            }
            lemma_sampler_access_rt(t.access, r_acc);
            lemma_precision_rt(t.precision, r_prec);
            lemma_u8_rt(t.allow_unordered_access, r_aua);
            lemma_sampler_type_rt(t.sampler_type, v, r_st);
            lemma_string_rt(t.texture_format, r_tf);
            lemma_u32_rt(t.unknown_int, r_ui);
        },
    }
}

#[verifier::rlimit(100)]
#[verifier::spinoff_prover]
proof fn lemma_sampler_back_rt(t: SamplerDefinitionView, v: MinecraftVersion, rest: Seq<u8>)
    requires
        wf_opt_utf8(t.default_texture),
        wf_opt_utf8(t.unknown_string),
        match t.custom_type_info {
            Some(c) => is_utf8(c.name),
            None => true,
        },
    ensures
        match se_sampler_back(t, v) {
            Ok(b) => sp_sampler_back(b + rest, v, t.reg) == Ok::<_, ReadError>(
                (
                    (
                        if v == MinecraftVersion::V1_18_30 {
                            (t.reg % 256) as u8
                        } else {
                            t.unknown_byte
                        },
                        if v == MinecraftVersion::V1_21_20 {
                            t.sampler_state
                        } else {
                            None
                        },
                        t.default_texture,
                        if sampler_has_unknown_string(v) {
                            t.unknown_string
                        } else {
                            None
                        },
                        t.custom_type_info,
                    ),
                    rest,
                ),
            ),
            Err(_) => true,
        },
{
    match se_sampler_back(t, v) {
        Err(_) => {},
        Ok(b) => {
            let b_ub: Seq<u8> = if v != MinecraftVersion::V1_18_30 {
                se_u8(t.unknown_byte)
            } else {
                Seq::<u8>::empty()
            };
            let b_ss: Seq<u8> = if v == MinecraftVersion::V1_21_20 {
                se_opt_u8(t.sampler_state)
            } else {
                Seq::<u8>::empty()
            };
            let b_dt = se_opt_string(t.default_texture)->Ok_0;
            let b_us: Seq<u8> = if sampler_has_unknown_string(v) {
                se_opt_string(t.unknown_string)->Ok_0
            } else {
                Seq::<u8>::empty()
            };
            let b_cti = se_opt_custom(t.custom_type_info)->Ok_0;
            assert(b == b_ub + b_ss + b_dt + b_us + b_cti);
            let r_cti = rest;
            let r_us = b_cti + r_cti;
            let r_dt = b_us + r_us;
            let r_ss = b_dt + r_dt;
            let r_ub = b_ss + r_ss;
            seq_assoc(b_ub + b_ss + b_dt + b_us, b_cti, rest);
            seq_assoc(b_ub + b_ss + b_dt, b_us, r_us);
            seq_assoc(b_ub + b_ss, b_dt, r_dt);
            seq_assoc(b_ub, b_ss, r_ss);
            assert(b + rest == b_ub + r_ub);
            if v != MinecraftVersion::V1_18_30 {
                lemma_u8_rt(t.unknown_byte, r_ub);
            }
            if v == MinecraftVersion::V1_21_20 {
                lemma_opt_u8_rt(t.sampler_state, r_ss);
            }
            lemma_opt_string_rt(t.default_texture, r_dt);
            if sampler_has_unknown_string(v) {
                lemma_opt_string_rt(t.unknown_string, r_us);
            }
            lemma_opt_custom_type_info_rt(t.custom_type_info, r_cti);
        },
    }
}

/// Emitting a well-formed sampler at schema `v` and parsing the bytes
/// back yields the sampler, normalised for `v`.
pub proof fn lemma_sampler_rt(t: SamplerDefinitionView, v: MinecraftVersion, rest: Seq<u8>)
    requires
        wf_sampler(t),
    ensures
        match se_sampler(t, v) {
            Ok(b) => sp_sampler(b + rest, v) == Ok::<_, ReadError>((norm_sampler(t, v), rest)),
            Err(_) => true,
        },
{
    match se_sampler_front(t, v) {
        Err(_) => {},
        Ok(f) => {
            match se_sampler_back(t, v) {
                Err(_) => {},
                Ok(b) => {
                    seq_assoc(f, b, rest);
                    lemma_sampler_front_rt(t, v, b + rest);
                    lemma_sampler_back_rt(t, v, rest);
                    assert(sp_sampler(f + (b + rest), v) == Ok::<_, ReadError>(
                        (norm_sampler(t, v), rest),
                    ));
                },
            }
        },
    }
}

/// The strings of a parsed sampler are valid UTF-8, so the sampler is
/// well formed for every schema.
#[verifier::rlimit(100)]
#[verifier::spinoff_prover]
pub proof fn lemma_sampler_parse_wf(
    s: Seq<u8>,
    v: MinecraftVersion,
    t: SamplerDefinitionView,
    rest: Seq<u8>,
)
    requires
        sp_sampler(s, v) == Ok::<(SamplerDefinitionView, Seq<u8>), ReadError>((t, rest)),
    ensures
        wf_sampler(t),
{
    match sp_sampler_front(s, v) {
        Err(_) => {
            assert(false);
        },
        Ok((f, s7)) => {
            lemma_sampler_front_parse_utf8(s, v, f, s7);
            match sp_sampler_back(s7, v, f.0) {
                Err(_) => {
                    assert(false);
                },
                Ok((b, s14)) => {
                    lemma_sampler_back_parse_utf8(s7, v, f.0, b, s14);
                },
            }
        },
    }
}

#[verifier::rlimit(100)]
#[verifier::spinoff_prover]
proof fn lemma_sampler_front_parse_utf8(
    s: Seq<u8>,
    v: MinecraftVersion,
    f: (u16, SamplerAccess, Precision, u8, SamplerType, Seq<u8>, u32),
    rest: Seq<u8>,
)
    requires
        sp_sampler_front(s, v) == Ok::<
            ((u16, SamplerAccess, Precision, u8, SamplerType, Seq<u8>, u32), Seq<u8>),
            ReadError,
        >((f, rest)),
    ensures
        is_utf8(f.5),
{
}

#[verifier::rlimit(100)]
#[verifier::spinoff_prover]
proof fn lemma_sampler_back_parse_utf8(
    s: Seq<u8>,
    v: MinecraftVersion,
    reg: u16,
    b: (u8, Option<u8>, Option<Seq<u8>>, Option<Seq<u8>>, Option<CustomTypeInfoView>),
    rest: Seq<u8>,
)
    requires
        sp_sampler_back(s, v, reg) == Ok::<
            (
                (u8, Option<u8>, Option<Seq<u8>>, Option<Seq<u8>>, Option<CustomTypeInfoView>),
                Seq<u8>,
            ),
            ReadError,
        >((b, rest)),
    ensures
        wf_opt_utf8(b.2),
        wf_opt_utf8(b.3),
        match b.4 {
            Some(c) => is_utf8(c.name),
            None => true,
        },
{
}

impl TableEntry for (Vec<u8>, SamplerDefinition) {
    type VV = (Seq<u8>, SamplerDefinitionView);

    open spec fn vw(&self) -> (Seq<u8>, SamplerDefinitionView) {
        (self.0@, self.1@)
    }

    open spec fn sp_entry(s: Seq<u8>, v: MinecraftVersion) -> Result<
        ((Seq<u8>, SamplerDefinitionView), Seq<u8>),
        ReadError,
    > {
        match sp_string(s) {
            Ok((name, s1)) => match sp_sampler(s1, v) {
                Ok((t, s2)) => Ok(((name, t), s2)),
                Err(e) => Err(e),
            },
            Err(e) => Err(e),
        }
    }

    open spec fn se_entry(t: (Seq<u8>, SamplerDefinitionView), v: MinecraftVersion) -> Result<
        Seq<u8>,
        WriteError,
    > {
        match se_string(t.0) {
            Ok(nb) => match se_sampler(t.1, v) {
                Ok(b) => Ok(nb + b),
                Err(e) => Err(e),
            },
            Err(e) => Err(e),
        }
    }

    open spec fn wf_entry(t: (Seq<u8>, SamplerDefinitionView), v: MinecraftVersion) -> bool {
        is_utf8(t.0) && wf_sampler(t.1)
    }

    open spec fn norm_entry(t: (Seq<u8>, SamplerDefinitionView), v: MinecraftVersion) -> (
        Seq<u8>,
        SamplerDefinitionView,
    ) {
        (t.0, norm_sampler(t.1, v))
    }

    fn read_entry(data: &Vec<u8>, off: usize, v: MinecraftVersion) -> (r: Result<
        (Self, usize),
        ReadError,
    >) {
        match read_string(data, off) {
            Ok((name, o1)) => match SamplerDefinition::read(data, o1, v) {
                Ok((t, o2)) => Ok(((name, t), o2)),
                Err(e) => Err(e),
            },
            Err(e) => Err(e),
        }
    }

    fn write_entry(&self, v: MinecraftVersion, out: &mut Vec<u8>) -> (r: Result<(), WriteError>) {
        match write_string(&self.0, out) {
            Ok(()) => {
                let r = self.1.write(out, v);
                proof {
                    match se_string(self.0@) {
                        Ok(nb) => {
                            match se_sampler(self.1@, v) {
                                Ok(b) => {
                                    assert(out@ =~= old(out)@ + (nb + b));
                                },
                                Err(_) => {},
                            }
                        },
                        Err(_) => {},
                    }
                }
                r
            },
            Err(e) => Err(e),
        }
    }

    proof fn entry_rt(t: (Seq<u8>, SamplerDefinitionView), v: MinecraftVersion, rest: Seq<u8>) {
        match se_string(t.0) {
            Ok(nb) => {
                match se_sampler(t.1, v) {
                    Ok(b) => {
                        assert((nb + b) + rest =~= nb + (b + rest));
                        lemma_string_rt(t.0, b + rest);
                        lemma_sampler_rt(t.1, v, rest);
                    },
                    Err(_) => {},
                }
            },
            Err(_) => {},
        }
    }

    proof fn entry_norm(t: (Seq<u8>, SamplerDefinitionView), v: MinecraftVersion) {
        assert(se_sampler(norm_sampler(t.1, v), v) == se_sampler(t.1, v));
    }

    proof fn entry_parse_wf(
        s: Seq<u8>,
        v: MinecraftVersion,
        v2: MinecraftVersion,
        t: (Seq<u8>, SamplerDefinitionView),
        rest: Seq<u8>,
    ) {
        match sp_string(s) {
            Err(_) => {
                assert(false);
            },
            Ok((name, s1)) => {
                lemma_string_utf8(s, name, s1);
                match sp_sampler(s1, v) {
                    Err(_) => {
                        assert(false);
                    },
                    Ok((sd, s2)) => {
                        lemma_sampler_parse_wf(s1, v, sd, s2);
                    },
                }
            },
        }
    }
}

} // verus!
