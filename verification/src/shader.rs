use vstd::prelude::*;
use crate::common::{
    sp_u8, sp_u16, sp_u32, sp_u64, sp_bool, sp_string, sp_byte_array, se_u8, se_u16, se_u32,
    se_u64, se_bool, se_string, se_byte_array, is_utf8, read_u8, read_u16, read_u32, read_u64,
    read_bool, read_string, read_byte_array, write_u8, write_u16, write_u32, write_u64, write_bool,
    write_string, write_byte_array, lemma_u8_rt, lemma_u16_rt, lemma_u32_rt, lemma_u64_rt,
    lemma_bool_rt, lemma_string_rt, lemma_byte_array_rt, lemma_string_utf8, seq_assoc,
};
use crate::error::{ReadError, WriteError, TagKind};
use crate::schema::MinecraftVersion;
use crate::table::{
    TableEntry, sp_table, se_table, vw_tbl, norm_tbl, wf_tbl, lemma_table_rt, read_table,
    write_table,
};

verus! {

// ---------------------------------------------------------------------
// ShaderInputType
// ---------------------------------------------------------------------

#[derive(Clone, Copy, PartialEq, Eq, Structural, Debug)]
pub enum ShaderInputType {
    Float,
    Vec2,
    Vec3,
    Vec4,
    Int,
    Int2,
    Int3,
    Int4,
    UInt,
    UInt2,
    UInt3,
    UInt4,
    Mat4,
}

impl ShaderInputType {
    pub open spec fn as_u8_spec(&self) -> u8 {
        match self {
            ShaderInputType::Float => 0,
            ShaderInputType::Vec2 => 1,
            ShaderInputType::Vec3 => 2,
            ShaderInputType::Vec4 => 3,
            ShaderInputType::Int => 4,
            ShaderInputType::Int2 => 5,
            ShaderInputType::Int3 => 6,
            ShaderInputType::Int4 => 7,
            ShaderInputType::UInt => 8,
            ShaderInputType::UInt2 => 9,
            ShaderInputType::UInt3 => 10,
            ShaderInputType::UInt4 => 11,
            ShaderInputType::Mat4 => 12,
        }
    }

    #[verifier::when_used_as_spec(as_u8_spec)]
    pub fn as_u8(&self) -> (r: u8)
        ensures
            r == self.as_u8_spec(),
    {
        match self {
            ShaderInputType::Float => 0,
            ShaderInputType::Vec2 => 1,
            ShaderInputType::Vec3 => 2,
            ShaderInputType::Vec4 => 3,
            ShaderInputType::Int => 4,
            ShaderInputType::Int2 => 5,
            ShaderInputType::Int3 => 6,
            ShaderInputType::Int4 => 7,
            ShaderInputType::UInt => 8,
            ShaderInputType::UInt2 => 9,
            ShaderInputType::UInt3 => 10,
            ShaderInputType::UInt4 => 11,
            ShaderInputType::Mat4 => 12,
        }
    }
}

pub open spec fn sp_shader_input_type(s: Seq<u8>) -> Result<(ShaderInputType, Seq<u8>), ReadError> {
    match sp_u8(s) {
        Ok((b, s1)) => if b == 0 {
            Ok((ShaderInputType::Float, s1))
        } else if b == 1 {
            Ok((ShaderInputType::Vec2, s1))
        } else if b == 2 {
            Ok((ShaderInputType::Vec3, s1))
        } else if b == 3 {
            Ok((ShaderInputType::Vec4, s1))
        } else if b == 4 {
            Ok((ShaderInputType::Int, s1))
        } else if b == 5 {
            Ok((ShaderInputType::Int2, s1))
        } else if b == 6 {
            Ok((ShaderInputType::Int3, s1))
        } else if b == 7 {
            Ok((ShaderInputType::Int4, s1))
        } else if b == 8 {
            Ok((ShaderInputType::UInt, s1))
        } else if b == 9 {
            Ok((ShaderInputType::UInt2, s1))
        } else if b == 10 {
            Ok((ShaderInputType::UInt3, s1))
        } else if b == 11 {
            Ok((ShaderInputType::UInt4, s1))
        } else if b == 12 {
            Ok((ShaderInputType::Mat4, s1))
        } else {
            Err(ReadError::InvalidTag { which: TagKind::ShaderInputType, value: b as u32 })
        },
        Err(e) => Err(e),
    }
}

pub fn read_shader_input_type(data: &Vec<u8>, off: usize) -> (r: Result<
    (ShaderInputType, usize),
    ReadError,
>)
    requires
        off <= data@.len(),
    ensures
        match r {
            Ok((t, off2)) => off <= off2 <= data@.len() && sp_shader_input_type(
                data@.skip(off as int),
            ) == Ok::<_, ReadError>((t, data@.skip(off2 as int))),
            Err(e) => sp_shader_input_type(data@.skip(off as int)) == Err::<
                (ShaderInputType, Seq<u8>),
                _,
            >(e),
        },
{
    match read_u8(data, off) {
        Ok((b, o1)) => if b == 0 {
            Ok((ShaderInputType::Float, o1))
        } else if b == 1 {
            Ok((ShaderInputType::Vec2, o1))
        } else if b == 2 {
            Ok((ShaderInputType::Vec3, o1))
        } else if b == 3 {
            Ok((ShaderInputType::Vec4, o1))
        } else if b == 4 {
            Ok((ShaderInputType::Int, o1))
        } else if b == 5 {
            Ok((ShaderInputType::Int2, o1))
        } else if b == 6 {
            Ok((ShaderInputType::Int3, o1))
        } else if b == 7 {
            Ok((ShaderInputType::Int4, o1))
        } else if b == 8 {
            Ok((ShaderInputType::UInt, o1))
        } else if b == 9 {
            Ok((ShaderInputType::UInt2, o1))
        } else if b == 10 {
            Ok((ShaderInputType::UInt3, o1))
        } else if b == 11 {
            Ok((ShaderInputType::UInt4, o1))
        } else if b == 12 {
            Ok((ShaderInputType::Mat4, o1))
        } else {
            Err(ReadError::InvalidTag { which: TagKind::ShaderInputType, value: b as u32 })
        },
        Err(e) => Err(e),
    }
}

pub proof fn lemma_shader_input_type_rt(t: ShaderInputType, rest: Seq<u8>)
    ensures
        sp_shader_input_type(se_u8(t.as_u8_spec()) + rest) == Ok::<_, ReadError>((t, rest)),
{
    lemma_u8_rt(t.as_u8_spec(), rest);
}

// ---------------------------------------------------------------------
// PrecisionConstraint and InterpolationConstraint
// ---------------------------------------------------------------------

#[derive(Clone, Copy, PartialEq, Eq, Structural, Debug)]
pub enum PrecisionConstraint {
    Low,
    Medium,
    High,
}

impl PrecisionConstraint {
    pub open spec fn as_u8_spec(&self) -> u8 {
        match self {
            PrecisionConstraint::Low => 0,
            PrecisionConstraint::Medium => 1,
            PrecisionConstraint::High => 2,
        }
    }

    #[verifier::when_used_as_spec(as_u8_spec)]
    pub fn as_u8(&self) -> (r: u8)
        ensures
            r == self.as_u8_spec(),
    {
        match self {
            PrecisionConstraint::Low => 0,
            PrecisionConstraint::Medium => 1,
            PrecisionConstraint::High => 2,
        }
    }
}

pub open spec fn sp_precision_constraint(s: Seq<u8>) -> Result<
    (PrecisionConstraint, Seq<u8>),
    ReadError,
> {
    match sp_u8(s) {
        Ok((b, s1)) => if b == 0 {
            Ok((PrecisionConstraint::Low, s1))
        } else if b == 1 {
            Ok((PrecisionConstraint::Medium, s1))
        } else if b == 2 {
            Ok((PrecisionConstraint::High, s1))
        } else {
            Err(ReadError::InvalidTag { which: TagKind::PrecisionConstraint, value: b as u32 })
        },
        Err(e) => Err(e),
    }
}

pub fn read_precision_constraint(data: &Vec<u8>, off: usize) -> (r: Result<
    (PrecisionConstraint, usize),
    ReadError,
>)
    requires
        off <= data@.len(),
    ensures
        match r {
            Ok((t, off2)) => off <= off2 <= data@.len() && sp_precision_constraint(
                data@.skip(off as int),
            ) == Ok::<_, ReadError>((t, data@.skip(off2 as int))),
            Err(e) => sp_precision_constraint(data@.skip(off as int)) == Err::<
                (PrecisionConstraint, Seq<u8>),
                _,
            >(e),
        },
{
    match read_u8(data, off) {
        Ok((b, o1)) => if b == 0 {
            Ok((PrecisionConstraint::Low, o1))
        } else if b == 1 {
            Ok((PrecisionConstraint::Medium, o1))
        } else if b == 2 {
            Ok((PrecisionConstraint::High, o1))
        } else {
            Err(ReadError::InvalidTag { which: TagKind::PrecisionConstraint, value: b as u32 })
        },
        Err(e) => Err(e),
    }
}

pub proof fn lemma_precision_constraint_rt(t: PrecisionConstraint, rest: Seq<u8>)
    ensures
        sp_precision_constraint(se_u8(t.as_u8_spec()) + rest) == Ok::<_, ReadError>((t, rest)),
{
    lemma_u8_rt(t.as_u8_spec(), rest);
}

#[derive(Clone, Copy, PartialEq, Eq, Structural, Debug)]
pub enum InterpolationConstraint {
    Flat,
    Smooth,
    NoPerspective,
    Centroid,
}

impl InterpolationConstraint {
    pub open spec fn as_u8_spec(&self) -> u8 {
        match self {
            InterpolationConstraint::Flat => 0,
            InterpolationConstraint::Smooth => 1,
            InterpolationConstraint::NoPerspective => 2,
            InterpolationConstraint::Centroid => 3,
        }
    }

    #[verifier::when_used_as_spec(as_u8_spec)]
    pub fn as_u8(&self) -> (r: u8)
        ensures
            r == self.as_u8_spec(),
    {
        match self {
            InterpolationConstraint::Flat => 0,
            InterpolationConstraint::Smooth => 1,
            InterpolationConstraint::NoPerspective => 2,
            InterpolationConstraint::Centroid => 3,
        }
    }
}

pub open spec fn sp_interpolation_constraint(s: Seq<u8>) -> Result<
    (InterpolationConstraint, Seq<u8>),
    ReadError,
> {
    match sp_u8(s) {
        Ok((b, s1)) => if b == 0 {
            Ok((InterpolationConstraint::Flat, s1))
        } else if b == 1 {
            Ok((InterpolationConstraint::Smooth, s1))
        } else if b == 2 {
            Ok((InterpolationConstraint::NoPerspective, s1))
        } else if b == 3 {
            Ok((InterpolationConstraint::Centroid, s1))
        } else {
            Err(ReadError::InvalidTag { which: TagKind::InterpolationConstraint, value: b as u32 })
        },
        Err(e) => Err(e),
    }
}

pub fn read_interpolation_constraint(data: &Vec<u8>, off: usize) -> (r: Result<
    (InterpolationConstraint, usize),
    ReadError,
>)
    requires
        off <= data@.len(),
    ensures
        match r {
            Ok((t, off2)) => off <= off2 <= data@.len() && sp_interpolation_constraint(
                data@.skip(off as int),
            ) == Ok::<_, ReadError>((t, data@.skip(off2 as int))),
            Err(e) => sp_interpolation_constraint(data@.skip(off as int)) == Err::<
                (InterpolationConstraint, Seq<u8>),
                _,
            >(e),
        },
{
    match read_u8(data, off) {
        Ok((b, o1)) => if b == 0 {
            Ok((InterpolationConstraint::Flat, o1))
        } else if b == 1 {
            Ok((InterpolationConstraint::Smooth, o1))
        } else if b == 2 {
            Ok((InterpolationConstraint::NoPerspective, o1))
        } else if b == 3 {
            Ok((InterpolationConstraint::Centroid, o1))
        } else {
            Err(ReadError::InvalidTag { which: TagKind::InterpolationConstraint, value: b as u32 })
        },
        Err(e) => Err(e),
    }
}

pub proof fn lemma_interpolation_constraint_rt(t: InterpolationConstraint, rest: Seq<u8>)
    ensures
        sp_interpolation_constraint(se_u8(t.as_u8_spec()) + rest) == Ok::<_, ReadError>((t, rest)),
{
    lemma_u8_rt(t.as_u8_spec(), rest);
}

// ---------------------------------------------------------------------
// Attribute: a two-byte (index, sub-index) enumeration with gaps
// ---------------------------------------------------------------------

#[derive(Clone, Copy, PartialEq, Eq, Structural, Debug)]
pub enum Attribute {
    Position,
    Normal,
    Tangent,
    Bitangent,
    Color0,
    Color1,
    Color2,
    Color3,
    Indices,
    Weights,
    TexCoord0,
    TexCoord1,
    TexCoord2,
    TexCoord3,
    TexCoord4,
    TexCoord5,
    TexCoord6,
    TexCoord7,
    TexCoord8,
    FrontFacing,
}

impl Attribute {
    pub open spec fn to_tuple_spec(&self) -> (u8, u8) {
        match self {
            Attribute::Position => (0, 0),
            Attribute::Normal => (1, 0),
            Attribute::Tangent => (2, 0),
            Attribute::Bitangent => (3, 0),
            Attribute::Color0 => (4, 0),
            Attribute::Color1 => (4, 1),
            Attribute::Color2 => (4, 2),
            Attribute::Color3 => (4, 3),
            Attribute::Indices => (5, 0),
            Attribute::Weights => (6, 0),
            Attribute::TexCoord0 => (7, 0),
            Attribute::TexCoord1 => (7, 1),
            Attribute::TexCoord2 => (7, 2),
            Attribute::TexCoord3 => (7, 3),
            Attribute::TexCoord4 => (7, 4),
            Attribute::TexCoord5 => (7, 5),
            Attribute::TexCoord6 => (7, 6),
            Attribute::TexCoord7 => (7, 7),
            Attribute::TexCoord8 => (7, 8),
            Attribute::FrontFacing => (9, 0),
        }
    }

    #[verifier::when_used_as_spec(to_tuple_spec)]
    pub fn to_tuple(&self) -> (r: (u8, u8))
        ensures
            r == self.to_tuple_spec(),
    {
        match self {
            Attribute::Position => (0, 0),
            Attribute::Normal => (1, 0),
            Attribute::Tangent => (2, 0),
            Attribute::Bitangent => (3, 0),
            Attribute::Color0 => (4, 0),
            Attribute::Color1 => (4, 1),
            Attribute::Color2 => (4, 2),
            Attribute::Color3 => (4, 3),
            Attribute::Indices => (5, 0),
            Attribute::Weights => (6, 0),
            Attribute::TexCoord0 => (7, 0),
            Attribute::TexCoord1 => (7, 1),
            Attribute::TexCoord2 => (7, 2),
            Attribute::TexCoord3 => (7, 3),
            Attribute::TexCoord4 => (7, 4),
            Attribute::TexCoord5 => (7, 5),
            Attribute::TexCoord6 => (7, 6),
            Attribute::TexCoord7 => (7, 7),
            Attribute::TexCoord8 => (7, 8),
            Attribute::FrontFacing => (9, 0),
        }
    }
}

pub open spec fn attribute_of_tuple(index: u8, sub: u8) -> Option<Attribute> {
    if index == 0 && sub == 0 {
        Some(Attribute::Position)
    } else if index == 1 && sub == 0 {
        Some(Attribute::Normal)
    } else if index == 2 && sub == 0 {
        Some(Attribute::Tangent)
    } else if index == 3 && sub == 0 {
        Some(Attribute::Bitangent)
    } else if index == 4 && sub == 0 {
        Some(Attribute::Color0)
    } else if index == 4 && sub == 1 {
        Some(Attribute::Color1)
    } else if index == 4 && sub == 2 {
        Some(Attribute::Color2)
    } else if index == 4 && sub == 3 {
        Some(Attribute::Color3)
    } else if index == 5 && sub == 0 {
        Some(Attribute::Indices)
    } else if index == 6 && sub == 0 {
        Some(Attribute::Weights)
    } else if index == 7 && sub == 0 {
        Some(Attribute::TexCoord0)
    } else if index == 7 && sub == 1 {
        Some(Attribute::TexCoord1)
    } else if index == 7 && sub == 2 {
        Some(Attribute::TexCoord2)
    } else if index == 7 && sub == 3 {
        Some(Attribute::TexCoord3)
    } else if index == 7 && sub == 4 {
        Some(Attribute::TexCoord4)
    } else if index == 7 && sub == 5 {
        Some(Attribute::TexCoord5)
    } else if index == 7 && sub == 6 {
        Some(Attribute::TexCoord6)
    } else if index == 7 && sub == 7 {
        Some(Attribute::TexCoord7)
    } else if index == 7 && sub == 8 {
        Some(Attribute::TexCoord8)
    } else if index == 9 && sub == 0 {
        Some(Attribute::FrontFacing)
    } else {
        None
    }
}

pub open spec fn sp_attribute(s: Seq<u8>) -> Result<(Attribute, Seq<u8>), ReadError> {
    match sp_u8(s) {
        Ok((index, s1)) => match sp_u8(s1) {
            Ok((sub, s2)) => match attribute_of_tuple(index, sub) {
                Some(a) => Ok((a, s2)),
                None => Err(
                    ReadError::InvalidTag {
                        which: TagKind::Attribute,
                        value: ((index as int) * 256 + (sub as int)) as u32,
                    },
                ),
            },
            Err(e) => Err(e),
        },
        Err(e) => Err(e),
    }
}

#[verifier::rlimit(100)]
pub fn read_attribute(data: &Vec<u8>, off: usize) -> (r: Result<(Attribute, usize), ReadError>)
    requires
        off <= data@.len(),
    ensures
        match r {
            Ok((t, off2)) => off <= off2 <= data@.len() && sp_attribute(data@.skip(off as int))
                == Ok::<_, ReadError>((t, data@.skip(off2 as int))),
            Err(e) => sp_attribute(data@.skip(off as int)) == Err::<(Attribute, Seq<u8>), _>(e),
        },
{
    match read_u8(data, off) {
        Ok((index, o1)) => match read_u8(data, o1) {
            Ok((sub, o2)) => {
                let a: Option<Attribute> = if index == 0 && sub == 0 {
                    Some(Attribute::Position)
                } else if index == 1 && sub == 0 {
                    Some(Attribute::Normal)
                } else if index == 2 && sub == 0 {
                    Some(Attribute::Tangent)
                } else if index == 3 && sub == 0 {
                    Some(Attribute::Bitangent)
                } else if index == 4 && sub == 0 {
                    Some(Attribute::Color0)
                } else if index == 4 && sub == 1 {
                    Some(Attribute::Color1)
                } else if index == 4 && sub == 2 {
                    Some(Attribute::Color2)
                } else if index == 4 && sub == 3 {
                    Some(Attribute::Color3)
                } else if index == 5 && sub == 0 {
                    Some(Attribute::Indices)
                } else if index == 6 && sub == 0 {
                    Some(Attribute::Weights)
                } else if index == 7 && sub == 0 {
                    Some(Attribute::TexCoord0)
                } else if index == 7 && sub == 1 {
                    Some(Attribute::TexCoord1)
                } else if index == 7 && sub == 2 {
                    Some(Attribute::TexCoord2)
                } else if index == 7 && sub == 3 {
                    Some(Attribute::TexCoord3)
                } else if index == 7 && sub == 4 {
                    Some(Attribute::TexCoord4)
                } else if index == 7 && sub == 5 {
                    Some(Attribute::TexCoord5)
                } else if index == 7 && sub == 6 {
                    Some(Attribute::TexCoord6)
                } else if index == 7 && sub == 7 {
                    Some(Attribute::TexCoord7)
                } else if index == 7 && sub == 8 {
                    Some(Attribute::TexCoord8)
                } else if index == 9 && sub == 0 {
                    Some(Attribute::FrontFacing)
                } else {
                    None
                };
                match a {
                    Some(attr) => Ok((attr, o2)),
                    None => Err(
                        ReadError::InvalidTag {
                            which: TagKind::Attribute,
                            value: (index as u32) * 256 + (sub as u32),
                        },
                    ),
                }
            },
            Err(e) => Err(e),
        },
        Err(e) => Err(e),
    }
}

pub open spec fn se_attribute(a: Attribute) -> Seq<u8> {
    se_u8(a.to_tuple_spec().0) + se_u8(a.to_tuple_spec().1)
}

#[verifier::rlimit(100)]
pub proof fn lemma_attribute_rt(a: Attribute, rest: Seq<u8>)
    ensures
        sp_attribute(se_attribute(a) + rest) == Ok::<_, ReadError>((a, rest)),
{
    let (index, sub) = a.to_tuple_spec();
    seq_assoc(se_u8(index), se_u8(sub), rest);
    lemma_u8_rt(index, se_u8(sub) + rest);
    lemma_u8_rt(sub, rest);
}

// ---------------------------------------------------------------------
// ShaderStage and ShaderCodePlatform
// ---------------------------------------------------------------------

#[derive(Clone, Copy, PartialEq, Eq, Hash, Structural, Debug)]
pub enum ShaderStage {
    Vertex,
    Fragment,
    Compute,
    Unknown,
}

impl ShaderStage {
    pub open spec fn as_u8_spec(&self) -> u8 {
        match self {
            ShaderStage::Vertex => 0,
            ShaderStage::Fragment => 1,
            ShaderStage::Compute => 2,
            ShaderStage::Unknown => 3,
        }
    }

    #[verifier::when_used_as_spec(as_u8_spec)]
    pub fn as_u8(&self) -> (r: u8)
        ensures
            r == self.as_u8_spec(),
    {
        match self {
            ShaderStage::Vertex => 0,
            ShaderStage::Fragment => 1,
            ShaderStage::Compute => 2,
            ShaderStage::Unknown => 3,
        }
    }
}

pub open spec fn sp_shader_stage(s: Seq<u8>) -> Result<(ShaderStage, Seq<u8>), ReadError> {
    match sp_u8(s) {
        Ok((b, s1)) => if b == 0 {
            Ok((ShaderStage::Vertex, s1))
        } else if b == 1 {
            Ok((ShaderStage::Fragment, s1))
        } else if b == 2 {
            Ok((ShaderStage::Compute, s1))
        } else if b == 3 {
            Ok((ShaderStage::Unknown, s1))
        } else {
            Err(ReadError::InvalidTag { which: TagKind::ShaderStage, value: b as u32 })
        },
        Err(e) => Err(e),
    }
}

pub fn read_shader_stage(data: &Vec<u8>, off: usize) -> (r: Result<(ShaderStage, usize), ReadError>)
    requires
        off <= data@.len(),
    ensures
        match r {
            Ok((t, off2)) => off <= off2 <= data@.len() && sp_shader_stage(data@.skip(off as int))
                == Ok::<_, ReadError>((t, data@.skip(off2 as int))),
            Err(e) => sp_shader_stage(data@.skip(off as int)) == Err::<(ShaderStage, Seq<u8>), _>(
                e,
            ),
        },
{
    match read_u8(data, off) {
        Ok((b, o1)) => if b == 0 {
            Ok((ShaderStage::Vertex, o1))
        } else if b == 1 {
            Ok((ShaderStage::Fragment, o1))
        } else if b == 2 {
            Ok((ShaderStage::Compute, o1))
        } else if b == 3 {
            Ok((ShaderStage::Unknown, o1))
        } else {
            Err(ReadError::InvalidTag { which: TagKind::ShaderStage, value: b as u32 })
        },
        Err(e) => Err(e),
    }
}

pub proof fn lemma_shader_stage_rt(t: ShaderStage, rest: Seq<u8>)
    ensures
        sp_shader_stage(se_u8(t.as_u8_spec()) + rest) == Ok::<_, ReadError>((t, rest)),
{
    lemma_u8_rt(t.as_u8_spec(), rest);
}

#[derive(Clone, Copy, PartialEq, Eq, Hash, Structural, Debug)]
pub enum ShaderCodePlatform {
    Direct3DSm40,
    Direct3DSm50,
    Direct3DSm60,
    Direct3DSm65,
    Direct3DXB1,
    Direct3DXBX,
    Glsl120,
    Glsl430,
    Essl100,
    Essl300,
    Essl310,
    Metal,
    Vulkan,
    Nvn,
    Pssl,
}

impl ShaderCodePlatform {
    pub open spec fn as_u8_spec(&self) -> u8 {
        match self {
            ShaderCodePlatform::Direct3DSm40 => 0,
            ShaderCodePlatform::Direct3DSm50 => 1,
            ShaderCodePlatform::Direct3DSm60 => 2,
            ShaderCodePlatform::Direct3DSm65 => 3,
            ShaderCodePlatform::Direct3DXB1 => 4,
            ShaderCodePlatform::Direct3DXBX => 5,
            ShaderCodePlatform::Glsl120 => 6,
            ShaderCodePlatform::Glsl430 => 7,
            ShaderCodePlatform::Essl100 => 8,
            ShaderCodePlatform::Essl300 => 9,
            ShaderCodePlatform::Essl310 => 10,
            ShaderCodePlatform::Metal => 11,
            ShaderCodePlatform::Vulkan => 12,
            ShaderCodePlatform::Nvn => 13,
            ShaderCodePlatform::Pssl => 14,
        }
    }

    #[verifier::when_used_as_spec(as_u8_spec)]
    pub fn as_u8(&self) -> (r: u8)
        ensures
            r == self.as_u8_spec(),
    {
        match self {
            ShaderCodePlatform::Direct3DSm40 => 0,
            ShaderCodePlatform::Direct3DSm50 => 1,
            ShaderCodePlatform::Direct3DSm60 => 2,
            ShaderCodePlatform::Direct3DSm65 => 3,
            ShaderCodePlatform::Direct3DXB1 => 4,
            ShaderCodePlatform::Direct3DXBX => 5,
            ShaderCodePlatform::Glsl120 => 6,
            ShaderCodePlatform::Glsl430 => 7,
            ShaderCodePlatform::Essl100 => 8,
            ShaderCodePlatform::Essl300 => 9,
            ShaderCodePlatform::Essl310 => 10,
            ShaderCodePlatform::Metal => 11,
            ShaderCodePlatform::Vulkan => 12,
            ShaderCodePlatform::Nvn => 13,
            ShaderCodePlatform::Pssl => 14,
        }
    }
}

pub open spec fn sp_shader_code_platform(s: Seq<u8>) -> Result<
    (ShaderCodePlatform, Seq<u8>),
    ReadError,
> {
    match sp_u8(s) {
        Ok((b, s1)) => if b == 0 {
            Ok((ShaderCodePlatform::Direct3DSm40, s1))
        } else if b == 1 {
            Ok((ShaderCodePlatform::Direct3DSm50, s1))
        } else if b == 2 {
            Ok((ShaderCodePlatform::Direct3DSm60, s1))
        } else if b == 3 {
            Ok((ShaderCodePlatform::Direct3DSm65, s1))
        } else if b == 4 {
            Ok((ShaderCodePlatform::Direct3DXB1, s1))
        } else if b == 5 {
            Ok((ShaderCodePlatform::Direct3DXBX, s1))
        } else if b == 6 {
            Ok((ShaderCodePlatform::Glsl120, s1))
        } else if b == 7 {
            Ok((ShaderCodePlatform::Glsl430, s1))
        } else if b == 8 {
            Ok((ShaderCodePlatform::Essl100, s1))
        } else if b == 9 {
            Ok((ShaderCodePlatform::Essl300, s1))
        } else if b == 10 {
            Ok((ShaderCodePlatform::Essl310, s1))
        } else if b == 11 {
            Ok((ShaderCodePlatform::Metal, s1))
        } else if b == 12 {
            Ok((ShaderCodePlatform::Vulkan, s1))
        } else if b == 13 {
            Ok((ShaderCodePlatform::Nvn, s1))
        } else if b == 14 {
            Ok((ShaderCodePlatform::Pssl, s1))
        } else {
            Err(ReadError::InvalidTag { which: TagKind::ShaderCodePlatform, value: b as u32 })
        },
        Err(e) => Err(e),
    }
}

#[verifier::rlimit(100)]
pub fn read_shader_code_platform(data: &Vec<u8>, off: usize) -> (r: Result<
    (ShaderCodePlatform, usize),
    ReadError,
>)
    requires
        off <= data@.len(),
    ensures
        match r {
            Ok((t, off2)) => off <= off2 <= data@.len() && sp_shader_code_platform(
                data@.skip(off as int),
            ) == Ok::<_, ReadError>((t, data@.skip(off2 as int))),
            Err(e) => sp_shader_code_platform(data@.skip(off as int)) == Err::<
                (ShaderCodePlatform, Seq<u8>),
                _,
            >(e),
        },
{
    match read_u8(data, off) {
        Ok((b, o1)) => if b == 0 {
            Ok((ShaderCodePlatform::Direct3DSm40, o1))
        } else if b == 1 {
            Ok((ShaderCodePlatform::Direct3DSm50, o1))
        } else if b == 2 {
            Ok((ShaderCodePlatform::Direct3DSm60, o1))
        } else if b == 3 {
            Ok((ShaderCodePlatform::Direct3DSm65, o1))
        } else if b == 4 {
            Ok((ShaderCodePlatform::Direct3DXB1, o1))
        } else if b == 5 {
            Ok((ShaderCodePlatform::Direct3DXBX, o1))
        } else if b == 6 {
            Ok((ShaderCodePlatform::Glsl120, o1))
        } else if b == 7 {
            Ok((ShaderCodePlatform::Glsl430, o1))
        } else if b == 8 {
            Ok((ShaderCodePlatform::Essl100, o1))
        } else if b == 9 {
            Ok((ShaderCodePlatform::Essl300, o1))
        } else if b == 10 {
            Ok((ShaderCodePlatform::Essl310, o1))
        } else if b == 11 {
            Ok((ShaderCodePlatform::Metal, o1))
        } else if b == 12 {
            Ok((ShaderCodePlatform::Vulkan, o1))
        } else if b == 13 {
            Ok((ShaderCodePlatform::Nvn, o1))
        } else if b == 14 {
            Ok((ShaderCodePlatform::Pssl, o1))
        } else {
            Err(ReadError::InvalidTag { which: TagKind::ShaderCodePlatform, value: b as u32 })
        },
        Err(e) => Err(e),
    }
}

pub proof fn lemma_shader_code_platform_rt(t: ShaderCodePlatform, rest: Seq<u8>)
    ensures
        sp_shader_code_platform(se_u8(t.as_u8_spec()) + rest) == Ok::<_, ReadError>((t, rest)),
{
    lemma_u8_rt(t.as_u8_spec(), rest);
}

// ---------------------------------------------------------------------
// ShaderInput
// ---------------------------------------------------------------------

/// One shader input binding. All fields are plain values, so the
/// struct is its own mathematical model.
#[derive(Clone, Copy, PartialEq, Eq, Debug)]
pub struct ShaderInput {
    pub input_type: ShaderInputType,
    pub attribute: Attribute,
    pub is_per_instance: bool,
    pub precision_constraint: Option<PrecisionConstraint>,
    pub interpolation_constraint: Option<InterpolationConstraint>,
}

impl View for ShaderInput {
    type V = ShaderInput;

    open spec fn view(&self) -> ShaderInput {
        *self
    }
}

pub open spec fn sp_shader_input(s: Seq<u8>) -> Result<(ShaderInput, Seq<u8>), ReadError> {
    match sp_shader_input_type(s) {
        Ok((it, s1)) => match sp_attribute(s1) {
            Ok((attr, s2)) => match sp_bool(s2) {
                Ok((ipi, s3)) => {
                    let pcres = match sp_bool(s3) {
                        Ok((p, s4)) => if p {
                            match sp_precision_constraint(s4) {
                                Ok((pc, s5)) => Ok((Some(pc), s5)),
                                Err(e) => Err(e),
                            }
                        } else {
                            Ok((None, s4))
                        },
                        Err(e) => Err(e),
                    };
                    match pcres {
                        Ok((pc, s5)) => {
                            let icres = match sp_bool(s5) {
                                Ok((p, s6)) => if p {
                                    match sp_interpolation_constraint(s6) {
                                        Ok((ic, s7)) => Ok((Some(ic), s7)),
                                        Err(e) => Err(e),
                                    }
                                } else {
                                    Ok((None, s6))
                                },
                                Err(e) => Err(e),
                            };
                            match icres {
                                Ok((ic, s7)) => Ok(
                                    (
                                        ShaderInput {
                                            input_type: it,
                                            attribute: attr,
                                            is_per_instance: ipi,
                                            precision_constraint: pc,
                                            interpolation_constraint: ic,
                                        },
                                        s7,
                                    ),
                                ),
                                Err(e) => Err(e),
                            }
                        },
                        Err(e) => Err(e),
                    }
                },
                Err(e) => Err(e),
            },
            Err(e) => Err(e),
        },
        Err(e) => Err(e),
    }
}

pub open spec fn se_opt_precision_constraint(o: Option<PrecisionConstraint>) -> Seq<u8> {
    match o {
        Some(pc) => se_bool(true) + se_u8(pc.as_u8_spec()),
        None => se_bool(false),
    }
}

pub open spec fn se_opt_interpolation_constraint(o: Option<InterpolationConstraint>) -> Seq<u8> {
    match o {
        Some(ic) => se_bool(true) + se_u8(ic.as_u8_spec()),
        None => se_bool(false),
    }
}

pub open spec fn se_shader_input(t: ShaderInput) -> Seq<u8> {
    se_u8(t.input_type.as_u8_spec()) + se_attribute(t.attribute) + se_bool(t.is_per_instance)
        + se_opt_precision_constraint(t.precision_constraint) + se_opt_interpolation_constraint(
        t.interpolation_constraint,
    )
}

impl ShaderInput {
    pub fn read(data: &Vec<u8>, off: usize) -> (r: Result<(Self, usize), ReadError>)
        requires
            off <= data@.len(),
        ensures
            match r {
                Ok((t, off2)) => off <= off2 <= data@.len() && sp_shader_input(
                    data@.skip(off as int),
                ) == Ok::<_, ReadError>((t, data@.skip(off2 as int))),
                Err(e) => sp_shader_input(data@.skip(off as int)) == Err::<
                    (ShaderInput, Seq<u8>),
                    _,
                >(e),
            },
    {
        match read_shader_input_type(data, off) {
            Ok((it, o1)) => match read_attribute(data, o1) {
                Ok((attr, o2)) => match read_bool(data, o2) {
                    Ok((ipi, o3)) => {
                        let pcres: Result<(Option<PrecisionConstraint>, usize), ReadError> =
                            match read_bool(data, o3) {
                            Ok((p, o4)) => if p {
                                match read_precision_constraint(data, o4) {
                                    Ok((pc, o5)) => Ok((Some(pc), o5)),
                                    Err(e) => Err(e),
                                }
                            } else {
                                Ok((None, o4))
                            },
                            Err(e) => Err(e),
                        };
                        match pcres {
                            Ok((pc, o5)) => {
                                let icres: Result<
                                    (Option<InterpolationConstraint>, usize),
                                    ReadError,
                                > = match read_bool(data, o5) {
                                    Ok((p, o6)) => if p {
                                        match read_interpolation_constraint(data, o6) {
                                            Ok((ic, o7)) => Ok((Some(ic), o7)),
                                            Err(e) => Err(e),
                                        }
                                    } else {
                                        Ok((None, o6))
                                    },
                                    Err(e) => Err(e),
                                };
                                match icres {
                                    Ok((ic, o7)) => Ok(
                                        (
                                            ShaderInput {
                                                input_type: it,
                                                attribute: attr,
                                                is_per_instance: ipi,
                                                precision_constraint: pc,
                                                interpolation_constraint: ic,
                                            },
                                            o7,
                                        ),
                                    ),
                                    Err(e) => Err(e),
                                }
                            },
                            Err(e) => Err(e),
                        }
                    },
                    Err(e) => Err(e),
                },
                Err(e) => Err(e),
            },
            Err(e) => Err(e),
        }
    }

    #[verifier::rlimit(100)]
    #[verifier::spinoff_prover]
    pub fn write(&self, out: &mut Vec<u8>) -> (r: Result<(), WriteError>)
        ensures
            r == Ok::<(), WriteError>(()),
            final(out)@ == old(out)@ + se_shader_input(*self),
    {
        write_u8(out, self.input_type.as_u8());
        let (index, subindex) = self.attribute.to_tuple();
        write_u8(out, index);
        write_u8(out, subindex);
        write_bool(out, self.is_per_instance);
        match self.precision_constraint {
            Some(pc) => {
                write_bool(out, true);
                write_u8(out, pc.as_u8());
            },
            None => {
                write_bool(out, false);
            },
        }
        match self.interpolation_constraint {
            Some(ic) => {
                write_bool(out, true);
                write_u8(out, ic.as_u8());
            },
            None => {
                write_bool(out, false);
            },
        }
        proof {
            assert(out@ =~= old(out)@ + se_shader_input(*self));
        }
        Ok(())
    }
}

pub proof fn lemma_shader_input_rt(t: ShaderInput, rest: Seq<u8>)
    ensures
        sp_shader_input(se_shader_input(t) + rest) == Ok::<_, ReadError>((t, rest)),
{
    let a1 = se_u8(t.input_type.as_u8_spec());
    let a2 = se_attribute(t.attribute);
    let a3 = se_bool(t.is_per_instance);
    let a4 = se_opt_precision_constraint(t.precision_constraint);
    let a5 = se_opt_interpolation_constraint(t.interpolation_constraint);
    let r5 = rest;
    let r4 = a5 + r5;
    let r3 = a4 + r4;
    let r2 = a3 + r3;
    let r1 = a2 + r2;
    seq_assoc(a1 + a2 + a3 + a4, a5, rest);
    seq_assoc(a1 + a2 + a3, a4, r4);
    seq_assoc(a1 + a2, a3, r3);
    seq_assoc(a1, a2, r2);
    assert(se_shader_input(t) + rest == a1 + r1);
    lemma_shader_input_type_rt(t.input_type, r1);
    lemma_attribute_rt(t.attribute, r2);
    lemma_bool_rt(t.is_per_instance, r3);
    match t.precision_constraint {
        Some(pc) => {
            seq_assoc(se_bool(true), se_u8(pc.as_u8_spec()), r4);
            lemma_bool_rt(true, se_u8(pc.as_u8_spec()) + r4);
            lemma_precision_constraint_rt(pc, r4);
        },
        None => {
            lemma_bool_rt(false, r4);
        },
    }
    match t.interpolation_constraint {
        Some(ic) => {
            seq_assoc(se_bool(true), se_u8(ic.as_u8_spec()), r5);
            lemma_bool_rt(true, se_u8(ic.as_u8_spec()) + r5);
            lemma_interpolation_constraint_rt(ic, r5);
        },
        None => {
            lemma_bool_rt(false, r5);
        },
    }
}

impl TableEntry for (Vec<u8>, ShaderInput) {
    type VV = (Seq<u8>, ShaderInput);

    open spec fn vw(&self) -> (Seq<u8>, ShaderInput) {
        (self.0@, self.1)
    }

    open spec fn sp_entry(s: Seq<u8>, v: MinecraftVersion) -> Result<
        ((Seq<u8>, ShaderInput), Seq<u8>),
        ReadError,
    > {
        match sp_string(s) {
            Ok((name, s1)) => match sp_shader_input(s1) {
                Ok((t, s2)) => Ok(((name, t), s2)),
                Err(e) => Err(e),
            },
            Err(e) => Err(e),
        }
    }

    open spec fn se_entry(t: (Seq<u8>, ShaderInput), v: MinecraftVersion) -> Result<
        Seq<u8>,
        WriteError,
    > {
        match se_string(t.0) {
            Ok(nb) => Ok(nb + se_shader_input(t.1)),
            Err(e) => Err(e),
        }
    }

    open spec fn wf_entry(t: (Seq<u8>, ShaderInput), v: MinecraftVersion) -> bool {
        is_utf8(t.0)
    }

    open spec fn norm_entry(t: (Seq<u8>, ShaderInput), v: MinecraftVersion) -> (Seq<u8>, ShaderInput) {
        t
    }

    fn read_entry(data: &Vec<u8>, off: usize, v: MinecraftVersion) -> (r: Result<
        (Self, usize),
        ReadError,
    >) {
        match read_string(data, off) {
            Ok((name, o1)) => match ShaderInput::read(data, o1) {
                Ok((t, o2)) => Ok(((name, t), o2)),
                Err(e) => Err(e),
            },
            Err(e) => Err(e),
        }
    }

    fn write_entry(&self, v: MinecraftVersion, out: &mut Vec<u8>) -> (r: Result<(), WriteError>) {
        match write_string(&self.0, out) {
            Ok(()) => {
                let r = self.1.write(out);
                proof {
                    match se_string(self.0@) {
                        Ok(nb) => {
                            assert(out@ =~= old(out)@ + (nb + se_shader_input(self.1)));
                        },
                        Err(_) => {},
                    }
                }
                r
            },
            Err(e) => Err(e),
        }
    }

    proof fn entry_rt(t: (Seq<u8>, ShaderInput), v: MinecraftVersion, rest: Seq<u8>) {
        match se_string(t.0) {
            Ok(nb) => {
                seq_assoc(nb, se_shader_input(t.1), rest);
                lemma_string_rt(t.0, se_shader_input(t.1) + rest);
                lemma_shader_input_rt(t.1, rest);
            },
            Err(_) => {},
        }
    }

    proof fn entry_norm(t: (Seq<u8>, ShaderInput), v: MinecraftVersion) {
    }

    proof fn entry_parse_wf(
        s: Seq<u8>,
        v: MinecraftVersion,
        v2: MinecraftVersion,
        t: (Seq<u8>, ShaderInput),
        rest: Seq<u8>,
    ) {
        match sp_string(s) {
            Err(_) => {
                assert(false);
            },
            Ok((name, s1)) => {
                lemma_string_utf8(s, name, s1);
            },
        }
    }
}

// ---------------------------------------------------------------------
// PlatformShaderStage
// ---------------------------------------------------------------------

/// The key of one compiled artifact: stage and platform, each both as
/// a name and as a tag.
#[derive(Clone, PartialEq, Eq, Hash, Debug)]
pub struct PlatformShaderStage {
    pub stage_name: Vec<u8>,
    pub platform_name: Vec<u8>,
    pub stage: ShaderStage,
    pub platform: ShaderCodePlatform,
}

#[verifier::ext_equal]
pub ghost struct PlatformShaderStageView {
    pub stage_name: Seq<u8>,
    pub platform_name: Seq<u8>,
    pub stage: ShaderStage,
    pub platform: ShaderCodePlatform,
}

impl View for PlatformShaderStage {
    type V = PlatformShaderStageView;

    open spec fn view(&self) -> PlatformShaderStageView {
        PlatformShaderStageView {
            stage_name: self.stage_name@,
            platform_name: self.platform_name@,
            stage: self.stage,
            platform: self.platform,
        }
    }
}

pub open spec fn sp_platform_shader_stage(s: Seq<u8>) -> Result<
    (PlatformShaderStageView, Seq<u8>),
    ReadError,
> {
    match sp_string(s) {
        Ok((sn, s1)) => match sp_string(s1) {
            Ok((pn, s2)) => match sp_shader_stage(s2) {
                Ok((st, s3)) => match sp_shader_code_platform(s3) {
                    Ok((pl, s4)) => Ok(
                        (
                            PlatformShaderStageView {
                                stage_name: sn,
                                platform_name: pn,
                                stage: st,
                                platform: pl,
                            },
                            s4,
                        ),
                    ),
                    Err(e) => Err(e),
                },
                Err(e) => Err(e),
            },
            Err(e) => Err(e),
        },
        Err(e) => Err(e),
    }
}

pub open spec fn se_platform_shader_stage(t: PlatformShaderStageView) -> Result<Seq<u8>, WriteError> {
    match se_string(t.stage_name) {
        Ok(b_sn) => match se_string(t.platform_name) {
            Ok(b_pn) => Ok(
                b_sn + b_pn + se_u8(t.stage.as_u8_spec()) + se_u8(t.platform.as_u8_spec()),
            ),
            Err(e) => Err(e),
        },
        Err(e) => Err(e),
    }
}

pub open spec fn wf_platform_shader_stage(t: PlatformShaderStageView) -> bool {
    is_utf8(t.stage_name) && is_utf8(t.platform_name)
}

impl PlatformShaderStage {
    pub fn read(data: &Vec<u8>, off: usize) -> (r: Result<(Self, usize), ReadError>)
        requires
            off <= data@.len(),
        ensures
            match r {
                Ok((t, off2)) => off <= off2 <= data@.len() && sp_platform_shader_stage(
                    data@.skip(off as int),
                ) == Ok::<_, ReadError>((t@, data@.skip(off2 as int))),
                Err(e) => sp_platform_shader_stage(data@.skip(off as int)) == Err::<
                    (PlatformShaderStageView, Seq<u8>),
                    _,
                >(e),
            },
    {
        match read_string(data, off) {
            Ok((sn, o1)) => match read_string(data, o1) {
                Ok((pn, o2)) => match read_shader_stage(data, o2) {
                    Ok((st, o3)) => match read_shader_code_platform(data, o3) {
                        Ok((pl, o4)) => Ok(
                            (
                                PlatformShaderStage {
                                    stage_name: sn,
                                    platform_name: pn,
                                    stage: st,
                                    platform: pl,
                                },
                                o4,
                            ),
                        ),
                        Err(e) => Err(e),
                    },
                    Err(e) => Err(e),
                },
                Err(e) => Err(e),
            },
            Err(e) => Err(e),
        }
    }

    pub fn write(&self, out: &mut Vec<u8>) -> (r: Result<(), WriteError>)
        ensures
            match se_platform_shader_stage(self@) {
                Ok(b) => r == Ok::<(), WriteError>(()) && final(out)@ == old(out)@ + b,
                Err(e) => r == Err::<(), WriteError>(e),
            },
    {
        match write_string(&self.stage_name, out) {
            Ok(()) => {},
            Err(e) => {
                return Err(e);
            },
        }
        match write_string(&self.platform_name, out) {
            Ok(()) => {},
            Err(e) => {
                return Err(e);
            },
        }
        write_u8(out, self.stage.as_u8());
        write_u8(out, self.platform.as_u8());
        proof {
            match se_platform_shader_stage(self@) {
                Ok(b) => {
                    assert(out@ =~= old(out)@ + b);
                },
                Err(_) => {
                    assert(false);
                },
            }
        }
        Ok(())
    }
}

/// The names of a parsed stage key are valid UTF-8.
pub proof fn lemma_platform_shader_stage_parse_wf(
    s: Seq<u8>,
    t: PlatformShaderStageView,
    rest: Seq<u8>,
)
    requires
        sp_platform_shader_stage(s) == Ok::<(PlatformShaderStageView, Seq<u8>), ReadError>(
            (t, rest),
        ),
    ensures
        wf_platform_shader_stage(t),
{
    match sp_string(s) {
        Err(_) => {
            assert(false);
        },
        Ok((sn, s1)) => {
            lemma_string_utf8(s, sn, s1);
            match sp_string(s1) {
                Err(_) => {
                    assert(false);
                },
                Ok((pn, s2)) => {
                    lemma_string_utf8(s1, pn, s2);
                },
            }
        },
    }
}

pub proof fn lemma_platform_shader_stage_rt(t: PlatformShaderStageView, rest: Seq<u8>)
    requires
        wf_platform_shader_stage(t),
    ensures
        match se_platform_shader_stage(t) {
            Ok(b) => sp_platform_shader_stage(b + rest) == Ok::<_, ReadError>((t, rest)),
            Err(_) => true,
        },
{
    match se_platform_shader_stage(t) {
        Err(_) => {},
        Ok(b) => {
            let b_sn = se_string(t.stage_name)->Ok_0;
            let b_pn = se_string(t.platform_name)->Ok_0;
            let a3 = se_u8(t.stage.as_u8_spec());
            let a4 = se_u8(t.platform.as_u8_spec());
            let r4 = rest;
            let r3 = a4 + r4;
            let r2 = a3 + r3;
            let r1 = b_pn + r2;
            seq_assoc(b_sn + b_pn + a3, a4, rest);
            seq_assoc(b_sn + b_pn, a3, r3);
            seq_assoc(b_sn, b_pn, r2);
            assert(b + rest == b_sn + r1);
            lemma_string_rt(t.stage_name, r1);
            lemma_string_rt(t.platform_name, r2);
            lemma_shader_stage_rt(t.stage, r3);
            lemma_shader_code_platform_rt(t.platform, r4);
            assert(sp_platform_shader_stage(b + rest) == Ok::<_, ReadError>((t, rest)));
        },
    }
}

// ---------------------------------------------------------------------
// ShaderCode
// ---------------------------------------------------------------------

/// One compiled artifact: its named inputs, a source hash, and the
/// embedded backend blob kept as opaque bytes.
#[derive(Debug)]
pub struct ShaderCode {
    pub shader_inputs: Vec<(Vec<u8>, ShaderInput)>,
    pub source_hash: u64,
    pub bgfx_shader_data: Vec<u8>,
}

#[verifier::ext_equal]
pub ghost struct ShaderCodeView {
    pub shader_inputs: Seq<(Seq<u8>, ShaderInput)>,
    pub source_hash: u64,
    pub bgfx_shader_data: Seq<u8>,
}

impl View for ShaderCode {
    type V = ShaderCodeView;

    open spec fn view(&self) -> ShaderCodeView {
        ShaderCodeView {
            shader_inputs: vw_tbl::<(Vec<u8>, ShaderInput)>(self.shader_inputs@),
            source_hash: self.source_hash,
            bgfx_shader_data: self.bgfx_shader_data@,
        }
    }
}

pub open spec fn sp_shader_code(s: Seq<u8>, v: MinecraftVersion) -> Result<
    (ShaderCodeView, Seq<u8>),
    ReadError,
> {
    match sp_u16(s) {
        Ok((n, s1)) => match sp_table::<(Vec<u8>, ShaderInput)>(s1, n as nat, v) {
            Ok((inputs, s2)) => match sp_u64(s2) {
                Ok((hash, s3)) => match sp_byte_array(s3) {
                    Ok((blob, s4)) => Ok(
                        (
                            ShaderCodeView {
                                shader_inputs: inputs,
                                source_hash: hash,
                                bgfx_shader_data: blob,
                            },
                            s4,
                        ),
                    ),
                    Err(e) => Err(e),
                },
                Err(e) => Err(e),
            },
            Err(e) => Err(e),
        },
        Err(e) => Err(e),
    }
}

pub open spec fn se_shader_code(t: ShaderCodeView, v: MinecraftVersion) -> Result<
    Seq<u8>,
    WriteError,
> {
    if t.shader_inputs.len() > 0xFFFF {
        Err(WriteError::IntOverflow)
    } else {
        match se_table::<(Vec<u8>, ShaderInput)>(t.shader_inputs, v) {
            Ok(b_in) => match se_byte_array(t.bgfx_shader_data) {
                Ok(b_blob) => Ok(
                    se_u16(t.shader_inputs.len() as u16) + b_in + se_u64(t.source_hash) + b_blob,
                ),
                Err(e) => Err(e),
            },
            Err(e) => Err(e),
        }
    }
}

pub open spec fn wf_shader_code(t: ShaderCodeView, v: MinecraftVersion) -> bool {
    wf_tbl::<(Vec<u8>, ShaderInput)>(t.shader_inputs, v)
}

impl ShaderCode {
    pub fn read(data: &Vec<u8>, off: usize, v: MinecraftVersion) -> (r: Result<
        (Self, usize),
        ReadError,
    >)
        requires
            off <= data@.len(),
        ensures
            match r {
                Ok((t, off2)) => off <= off2 <= data@.len() && sp_shader_code(
                    data@.skip(off as int),
                    v,
                ) == Ok::<_, ReadError>((t@, data@.skip(off2 as int))),
                Err(e) => sp_shader_code(data@.skip(off as int), v) == Err::<
                    (ShaderCodeView, Seq<u8>),
                    _,
                >(e),
            },
    {
        match read_u16(data, off) {
            Ok((n, o1)) => match read_table::<(Vec<u8>, ShaderInput)>(data, o1, n as usize, v) {
                Ok((inputs, o2)) => match read_u64(data, o2) {
                    Ok((hash, o3)) => match read_byte_array(data, o3) {
                        Ok((blob, o4)) => Ok(
                            (
                                ShaderCode {
                                    shader_inputs: inputs,
                                    source_hash: hash,
                                    bgfx_shader_data: blob,
                                },
                                o4,
                            ),
                        ),
                        Err(e) => Err(e),
                    },
                    Err(e) => Err(e),
                },
                Err(e) => Err(e),
            },
            Err(e) => Err(e),
        }
    }

    pub fn write(&self, out: &mut Vec<u8>, v: MinecraftVersion) -> (r: Result<(), WriteError>)
        ensures
            match se_shader_code(self@, v) {
                Ok(b) => r == Ok::<(), WriteError>(()) && final(out)@ == old(out)@ + b,
                Err(e) => r == Err::<(), WriteError>(e),
            },
    {
        if self.shader_inputs.len() > 0xFFFF {
            return Err(WriteError::IntOverflow);
        }
        write_u16(out, self.shader_inputs.len() as u16);
        match write_table::<(Vec<u8>, ShaderInput)>(&self.shader_inputs, v, out) {
            Ok(()) => {},
            Err(e) => {
                return Err(e);
            },
        }
        write_u64(out, self.source_hash);
        match write_byte_array(&self.bgfx_shader_data, out) {
            Ok(()) => {},
            Err(e) => {
                return Err(e);
            },
        }
        proof {
            match se_shader_code(self@, v) {
                Ok(b) => {
                    assert(out@ =~= old(out)@ + b);
                },
                Err(_) => {
                    assert(false);
                },
            }
        }
        Ok(())
    }
}

/// A parsed artifact's input table consists of well-formed entries.
pub proof fn lemma_shader_code_parse_wf(
    s: Seq<u8>,
    v: MinecraftVersion,
    v2: MinecraftVersion,
    t: ShaderCodeView,
    rest: Seq<u8>,
)
    requires
        sp_shader_code(s, v) == Ok::<(ShaderCodeView, Seq<u8>), ReadError>((t, rest)),
        v2 != MinecraftVersion::V1_18_30,
    ensures
        wf_shader_code(t, v2),
{
    match sp_u16(s) {
        Err(_) => {
            assert(false);
        },
        Ok((n, s1)) => {
            match sp_table::<(Vec<u8>, ShaderInput)>(s1, n as nat, v) {
                Err(_) => {
                    assert(false);
                },
                Ok((inputs, s2)) => {
                    crate::table::lemma_table_parse_wf::<(Vec<u8>, ShaderInput)>(
                        s1,
                        n as nat,
                        v,
                        v2,
                        inputs,
                        s2,
                    );
                },
            }
        },
    }
}

pub proof fn lemma_shader_code_rt(t: ShaderCodeView, v: MinecraftVersion, rest: Seq<u8>)
    requires
        wf_shader_code(t, v),
    ensures
        match se_shader_code(t, v) {
            Ok(b) => sp_shader_code(b + rest, v) == Ok::<_, ReadError>((t, rest)),
            Err(_) => true,
        },
{
    match se_shader_code(t, v) {
        Err(_) => {},
        Ok(b) => {
            let n = t.shader_inputs.len() as u16;
            let a1 = se_u16(n);
            let b_in = se_table::<(Vec<u8>, ShaderInput)>(t.shader_inputs, v)->Ok_0;
            let a3 = se_u64(t.source_hash);
            let b_blob = se_byte_array(t.bgfx_shader_data)->Ok_0;
            let r4 = rest;
            let r3 = b_blob + r4;
            let r2 = a3 + r3;
            let r1 = b_in + r2;
            seq_assoc(a1 + b_in + a3, b_blob, rest);
            seq_assoc(a1 + b_in, a3, r3);
            seq_assoc(a1, b_in, r2);
            assert(b + rest == a1 + r1);
            lemma_u16_rt(n, r1);
            lemma_table_rt::<(Vec<u8>, ShaderInput)>(t.shader_inputs, v, r2);
            assert(norm_tbl::<(Vec<u8>, ShaderInput)>(t.shader_inputs, v) =~= t.shader_inputs);
            lemma_u64_rt(t.source_hash, r3);
            lemma_byte_array_rt(t.bgfx_shader_data, r4);
            assert(sp_shader_code(b + rest, v) == Ok::<_, ReadError>((t, rest)));
        },
    }
}

// ---------------------------------------------------------------------
// (PlatformShaderStage, ShaderCode) entries
// ---------------------------------------------------------------------

impl TableEntry for (PlatformShaderStage, ShaderCode) {
    type VV = (PlatformShaderStageView, ShaderCodeView);

    open spec fn vw(&self) -> (PlatformShaderStageView, ShaderCodeView) {
        (self.0@, self.1@)
    }

    open spec fn sp_entry(s: Seq<u8>, v: MinecraftVersion) -> Result<
        ((PlatformShaderStageView, ShaderCodeView), Seq<u8>),
        ReadError,
    > {
        match sp_platform_shader_stage(s) {
            Ok((k, s1)) => match sp_shader_code(s1, v) {
                Ok((c, s2)) => Ok(((k, c), s2)),
                Err(e) => Err(e),
            },
            Err(e) => Err(e),
        }
    }

    open spec fn se_entry(t: (PlatformShaderStageView, ShaderCodeView), v: MinecraftVersion) -> Result<
        Seq<u8>,
        WriteError,
    > {
        match se_platform_shader_stage(t.0) {
            Ok(kb) => match se_shader_code(t.1, v) {
                Ok(cb) => Ok(kb + cb),
                Err(e) => Err(e),
            },
            Err(e) => Err(e),
        }
    }

    open spec fn wf_entry(t: (PlatformShaderStageView, ShaderCodeView), v: MinecraftVersion) -> bool {
        wf_platform_shader_stage(t.0) && wf_shader_code(t.1, v)
    }

    open spec fn norm_entry(t: (PlatformShaderStageView, ShaderCodeView), v: MinecraftVersion) -> (
        PlatformShaderStageView,
        ShaderCodeView,
    ) {
        t
    }

    fn read_entry(data: &Vec<u8>, off: usize, v: MinecraftVersion) -> (r: Result<
        (Self, usize),
        ReadError,
    >) {
        match PlatformShaderStage::read(data, off) {
            Ok((k, o1)) => match ShaderCode::read(data, o1, v) {
                Ok((c, o2)) => Ok(((k, c), o2)),
                Err(e) => Err(e),
            },
            Err(e) => Err(e),
        }
    }

    fn write_entry(&self, v: MinecraftVersion, out: &mut Vec<u8>) -> (r: Result<(), WriteError>) {
        match self.0.write(out) {
            Ok(()) => {
                let r = self.1.write(out, v);
                proof {
                    match se_platform_shader_stage(self.0@) {
                        Ok(kb) => {
                            match se_shader_code(self.1@, v) {
                                Ok(cb) => {
                                    assert(out@ =~= old(out)@ + (kb + cb));
                                },
                                Err(_) => {},
                            }
                        },
                        Err(_) => {},
                    }
                }
                r
            },
            Err(e) => Err(e),
        }
    }

    proof fn entry_rt(t: (PlatformShaderStageView, ShaderCodeView), v: MinecraftVersion, rest: Seq<u8>) {
        match se_platform_shader_stage(t.0) {
            Ok(kb) => {
                match se_shader_code(t.1, v) {
                    Ok(cb) => {
                        seq_assoc(kb, cb, rest);
                        lemma_platform_shader_stage_rt(t.0, cb + rest);
                        lemma_shader_code_rt(t.1, v, rest);
                    },
                    Err(_) => {},
                }
            },
            Err(_) => {},
        }
    }

    proof fn entry_norm(t: (PlatformShaderStageView, ShaderCodeView), v: MinecraftVersion) {
    }

    proof fn entry_parse_wf(
        s: Seq<u8>,
        v: MinecraftVersion,
        v2: MinecraftVersion,
        t: (PlatformShaderStageView, ShaderCodeView),
        rest: Seq<u8>,
    ) {
        match sp_platform_shader_stage(s) {
            Err(_) => {
                assert(false);
            },
            Ok((k, s1)) => {
                lemma_platform_shader_stage_parse_wf(s, k, s1);
                match sp_shader_code(s1, v) {
                    Err(_) => {
                        assert(false);
                    },
                    Ok((c, s2)) => {
                        lemma_shader_code_parse_wf(s1, v, v2, c, s2);
                    },
                }
            },
        }
    }
}

} // verus!
