use vstd::prelude::*;
use crate::common::{
    sp_u16, sp_u32, sp_bool, sp_string, se_u16, se_bool, se_string, se_u32, is_utf8, read_u16,
    read_u32, read_bool, read_string, write_u16, write_bool, write_string, lemma_u16_rt,
    lemma_u32_rt, lemma_bool_rt, lemma_string_rt, lemma_string_utf8, lemma_skip_skip, seq_assoc,
};
use crate::error::{ReadError, WriteError, TagKind, CompatReason};
use crate::schema::MinecraftVersion;
use crate::shader::{PlatformShaderStage, PlatformShaderStageView, ShaderCode, ShaderCodeView};
use crate::table::{
    TableEntry, sp_table, se_table, vw_tbl, norm_tbl, wf_tbl, lemma_table_rt, lemma_table_parse_wf,
    read_table, write_table,
};

verus! {

// ---------------------------------------------------------------------
// BlendMode
// ---------------------------------------------------------------------

#[derive(Clone, Copy, PartialEq, Eq, Structural, Debug)]
pub enum BlendMode {
    NoBlending,
    Replace,
    AlphaBlend,
    ColorBlendAlphaAdd,
    PreMultiplied,
    InvertColor,
    Additive,
    AdditiveAlpha,
    Multiply,
    MultiplyBoth,
    InverseSrcAlpha,
    SrcAlpha,
}

impl BlendMode {
    pub open spec fn as_u16_spec(&self) -> u16 {
        match self {
            BlendMode::NoBlending => 0,
            BlendMode::Replace => 1,
            BlendMode::AlphaBlend => 2,
            BlendMode::ColorBlendAlphaAdd => 3,
            BlendMode::PreMultiplied => 4,
            BlendMode::InvertColor => 5,
            BlendMode::Additive => 6,
            BlendMode::AdditiveAlpha => 7,
            BlendMode::Multiply => 8,
            BlendMode::MultiplyBoth => 9,
            BlendMode::InverseSrcAlpha => 10,
            BlendMode::SrcAlpha => 11,
        }
    }

    #[verifier::when_used_as_spec(as_u16_spec)]
    pub fn as_u16(&self) -> (r: u16)
        ensures
            r == self.as_u16_spec(),
    {
        match self {
            BlendMode::NoBlending => 0,
            BlendMode::Replace => 1,
            BlendMode::AlphaBlend => 2,
            BlendMode::ColorBlendAlphaAdd => 3,
            BlendMode::PreMultiplied => 4,
            BlendMode::InvertColor => 5,
            BlendMode::Additive => 6,
            BlendMode::AdditiveAlpha => 7,
            BlendMode::Multiply => 8,
            BlendMode::MultiplyBoth => 9,
            BlendMode::InverseSrcAlpha => 10,
            BlendMode::SrcAlpha => 11,
        }
    }
}

pub open spec fn sp_blend_mode(s: Seq<u8>) -> Result<(BlendMode, Seq<u8>), ReadError> {
    match sp_u16(s) {
        Ok((w, s1)) => if w == 0 {
            Ok((BlendMode::NoBlending, s1))
        } else if w == 1 {
            Ok((BlendMode::Replace, s1))
        } else if w == 2 {
            Ok((BlendMode::AlphaBlend, s1))
        } else if w == 3 {
            Ok((BlendMode::ColorBlendAlphaAdd, s1))
        } else if w == 4 {
            Ok((BlendMode::PreMultiplied, s1))
        } else if w == 5 {
            Ok((BlendMode::InvertColor, s1))
        } else if w == 6 {
            Ok((BlendMode::Additive, s1))
        } else if w == 7 {
            Ok((BlendMode::AdditiveAlpha, s1))
        } else if w == 8 {
            Ok((BlendMode::Multiply, s1))
        } else if w == 9 {
            Ok((BlendMode::MultiplyBoth, s1))
        } else if w == 10 {
            Ok((BlendMode::InverseSrcAlpha, s1))
        } else if w == 11 {
            Ok((BlendMode::SrcAlpha, s1))
        } else {
            Err(ReadError::InvalidTag { which: TagKind::BlendMode, value: w as u32 })
        },
        Err(e) => Err(e),
    }
}

#[verifier::rlimit(100)]
pub fn read_blend_mode(data: &Vec<u8>, off: usize) -> (r: Result<(BlendMode, usize), ReadError>)
    requires
        off <= data@.len(),
    ensures
        match r {
            Ok((t, off2)) => off <= off2 <= data@.len() && sp_blend_mode(data@.skip(off as int))
                == Ok::<_, ReadError>((t, data@.skip(off2 as int))),
            Err(e) => sp_blend_mode(data@.skip(off as int)) == Err::<(BlendMode, Seq<u8>), _>(e),
        },
{
    match read_u16(data, off) {
        Ok((w, o1)) => if w == 0 {
            Ok((BlendMode::NoBlending, o1))
        } else if w == 1 {
            Ok((BlendMode::Replace, o1))
        } else if w == 2 {
            Ok((BlendMode::AlphaBlend, o1))
        } else if w == 3 {
            Ok((BlendMode::ColorBlendAlphaAdd, o1))
        } else if w == 4 {
            Ok((BlendMode::PreMultiplied, o1))
        } else if w == 5 {
            Ok((BlendMode::InvertColor, o1))
        } else if w == 6 {
            Ok((BlendMode::Additive, o1))
        } else if w == 7 {
            Ok((BlendMode::AdditiveAlpha, o1))
        } else if w == 8 {
            Ok((BlendMode::Multiply, o1))
        } else if w == 9 {
            Ok((BlendMode::MultiplyBoth, o1))
        } else if w == 10 {
            Ok((BlendMode::InverseSrcAlpha, o1))
        } else if w == 11 {
            Ok((BlendMode::SrcAlpha, o1))
        } else {
            Err(ReadError::InvalidTag { which: TagKind::BlendMode, value: w as u32 })
        },
        Err(e) => Err(e),
    }
}

pub proof fn lemma_blend_mode_rt(t: BlendMode, rest: Seq<u8>)
    ensures
        sp_blend_mode(se_u16(t.as_u16_spec()) + rest) == Ok::<_, ReadError>((t, rest)),
{
    lemma_u16_rt(t.as_u16_spec(), rest);
}

// ---------------------------------------------------------------------
// Variant
// ---------------------------------------------------------------------

/// One realized flag combination: both counts stand on the wire
/// before both bodies.
#[derive(Debug)]
pub struct Variant {
    pub is_supported: bool,
    pub flags: Vec<(Vec<u8>, Vec<u8>)>,
    pub shader_codes: Vec<(PlatformShaderStage, ShaderCode)>,
}

#[verifier::ext_equal]
pub ghost struct VariantView {
    pub is_supported: bool,
    pub flags: Seq<(Seq<u8>, Seq<u8>)>,
    pub shader_codes: Seq<(PlatformShaderStageView, ShaderCodeView)>,
}

impl View for Variant {
    type V = VariantView;

    open spec fn view(&self) -> VariantView {
        VariantView {
            is_supported: self.is_supported,
            flags: vw_tbl::<(Vec<u8>, Vec<u8>)>(self.flags@),
            shader_codes: vw_tbl::<(PlatformShaderStage, ShaderCode)>(self.shader_codes@),
        }
    }
}

pub open spec fn sp_variant(s: Seq<u8>, v: MinecraftVersion) -> Result<
    (VariantView, Seq<u8>),
    ReadError,
> {
    match sp_bool(s) {
        Ok((sup, s1)) => match sp_u16(s1) {
            Ok((fc, s2)) => match sp_u16(s2) {
                Ok((cc, s3)) => match sp_table::<(Vec<u8>, Vec<u8>)>(s3, fc as nat, v) {
                    Ok((flags, s4)) => match sp_table::<(PlatformShaderStage, ShaderCode)>(
                        s4,
                        cc as nat,
                        v,
                    ) {
                        Ok((codes, s5)) => Ok(
                            (
                                VariantView {
                                    is_supported: sup,
                                    flags,
                                    shader_codes: codes,
                                },
                                s5,
                            ),
                        ),
                        Err(e) => Err(e),
                    },
                    Err(e) => Err(e),
                },
                Err(e) => Err(e),
            },
            Err(e) => Err(e),
        },
        Err(e) => Err(e),
    }
}

pub open spec fn se_variant(t: VariantView, v: MinecraftVersion) -> Result<Seq<u8>, WriteError> {
    if t.flags.len() > 0xFFFF {
        Err(WriteError::IntOverflow)
    } else if t.shader_codes.len() > 0xFFFF {
        Err(WriteError::IntOverflow)
    } else {
        match se_table::<(Vec<u8>, Vec<u8>)>(t.flags, v) {
            Ok(bf) => match se_table::<(PlatformShaderStage, ShaderCode)>(t.shader_codes, v) {
                Ok(bc) => Ok(
                    se_bool(t.is_supported) + se_u16(t.flags.len() as u16) + se_u16(
                        t.shader_codes.len() as u16,
                    ) + bf + bc,
                ),
                Err(e) => Err(e),
            },
            Err(e) => Err(e),
        }
    }
}

pub open spec fn wf_variant(t: VariantView, v: MinecraftVersion) -> bool {
    &&& wf_tbl::<(Vec<u8>, Vec<u8>)>(t.flags, v)
    &&& wf_tbl::<(PlatformShaderStage, ShaderCode)>(t.shader_codes, v)
}

impl Variant {
    pub fn read(data: &Vec<u8>, off: usize, v: MinecraftVersion) -> (r: Result<
        (Self, usize),
        ReadError,
    >)
        requires
            off <= data@.len(),
        ensures
            match r {
                Ok((t, off2)) => off <= off2 <= data@.len() && sp_variant(
                    data@.skip(off as int),
                    v,
                ) == Ok::<_, ReadError>((t@, data@.skip(off2 as int))),
                Err(e) => sp_variant(data@.skip(off as int), v) == Err::<
                    (VariantView, Seq<u8>),
                    _,
                >(e),
            },
    {
        match read_bool(data, off) {
            Ok((sup, o1)) => match read_u16(data, o1) {
                Ok((fc, o2)) => match read_u16(data, o2) {
                    Ok((cc, o3)) => match read_table::<(Vec<u8>, Vec<u8>)>(
                        data,
                        o3,
                        fc as usize,
                        v,
                    ) {
                        Ok((flags, o4)) => match read_table::<(PlatformShaderStage, ShaderCode)>(
                            data,
                            o4,
                            cc as usize,
                            v,
                        ) {
                            Ok((codes, o5)) => Ok(
                                (
                                    Variant {
                                        is_supported: sup,
                                        flags,
                                        shader_codes: codes,
                                    },
                                    o5,
                                ),
                            ),
                            Err(e) => Err(e),
                        },
                        Err(e) => Err(e),
                    },
                    Err(e) => Err(e),
                },
                Err(e) => Err(e),
            },
            Err(e) => Err(e),
        }
    }

    #[verifier::rlimit(100)]
    #[verifier::spinoff_prover]
    pub fn write(&self, out: &mut Vec<u8>, v: MinecraftVersion) -> (r: Result<(), WriteError>)
        ensures
            match se_variant(self@, v) {
                Ok(b) => r == Ok::<(), WriteError>(()) && final(out)@ == old(out)@ + b,
                Err(e) => r == Err::<(), WriteError>(e),
            },
    {
        if self.flags.len() > 0xFFFF {
            return Err(WriteError::IntOverflow);
        }
        if self.shader_codes.len() > 0xFFFF {
            return Err(WriteError::IntOverflow);
        }
        write_bool(out, self.is_supported);
        write_u16(out, self.flags.len() as u16);
        write_u16(out, self.shader_codes.len() as u16);
        match write_table::<(Vec<u8>, Vec<u8>)>(&self.flags, v, out) {
            Ok(()) => {},
            Err(e) => {
                return Err(e);
            },
        }
        match write_table::<(PlatformShaderStage, ShaderCode)>(&self.shader_codes, v, out) {
            Ok(()) => {},
            Err(e) => {
                return Err(e);
            },
        }
        proof {
            match se_variant(self@, v) {
                Ok(b) => {
                    assert(out@ =~= old(out)@ + b);
                },
                Err(_) => {
                    assert(false);
                },
            }
        }
        Ok(())
    }
}

#[verifier::rlimit(100)]
pub proof fn lemma_variant_rt(t: VariantView, v: MinecraftVersion, rest: Seq<u8>)
    requires
        wf_variant(t, v),
    ensures
        match se_variant(t, v) {
            Ok(b) => sp_variant(b + rest, v) == Ok::<_, ReadError>((t, rest)),
            Err(_) => true,
        },
{
    match se_variant(t, v) {
        Err(_) => {},
        Ok(b) => {
            let a1 = se_bool(t.is_supported);
            let a2 = se_u16(t.flags.len() as u16);
            let a3 = se_u16(t.shader_codes.len() as u16);
            let bf = se_table::<(Vec<u8>, Vec<u8>)>(t.flags, v)->Ok_0;
            let bc = se_table::<(PlatformShaderStage, ShaderCode)>(t.shader_codes, v)->Ok_0;
            let r5 = rest;
            let r4 = bc + r5;
            let r3 = bf + r4;
            let r2 = a3 + r3;
            let r1 = a2 + r2;
            seq_assoc(a1 + a2 + a3 + bf, bc, rest);
            seq_assoc(a1 + a2 + a3, bf, r4);
            seq_assoc(a1 + a2, a3, r3);
            seq_assoc(a1, a2, r2);
            assert(b + rest == a1 + r1);
            lemma_bool_rt(t.is_supported, r1);
            lemma_u16_rt(t.flags.len() as u16, r2);
            lemma_u16_rt(t.shader_codes.len() as u16, r3);
            lemma_table_rt::<(Vec<u8>, Vec<u8>)>(t.flags, v, r4);
            assert(norm_tbl::<(Vec<u8>, Vec<u8>)>(t.flags, v) =~= t.flags);
            lemma_table_rt::<(PlatformShaderStage, ShaderCode)>(t.shader_codes, v, r5);
            assert(norm_tbl::<(PlatformShaderStage, ShaderCode)>(t.shader_codes, v)
                =~= t.shader_codes);
            assert(sp_variant(b + rest, v) == Ok::<_, ReadError>((t, rest)));
        },
    }
}

/// A parsed variant's tables consist of well-formed entries.
pub proof fn lemma_variant_parse_wf(
    s: Seq<u8>,
    v: MinecraftVersion,
    v2: MinecraftVersion,
    t: VariantView,
    rest: Seq<u8>,
)
    requires
        sp_variant(s, v) == Ok::<(VariantView, Seq<u8>), ReadError>((t, rest)),
        v2 != MinecraftVersion::V1_18_30,
    ensures
        wf_variant(t, v2),
{
    match sp_bool(s) {
        Err(_) => {
            assert(false);
        },
        Ok((sup, s1)) => {
            match sp_u16(s1) {
                Err(_) => {
                    assert(false);
                },
                Ok((fc, s2)) => {
                    match sp_u16(s2) {
                        Err(_) => {
                            assert(false);
                        },
                        Ok((cc, s3)) => {
                            match sp_table::<(Vec<u8>, Vec<u8>)>(s3, fc as nat, v) {
                                Err(_) => {
                                    assert(false);
                                },
                                Ok((flags, s4)) => {
                                    lemma_table_parse_wf::<(Vec<u8>, Vec<u8>)>(
                                        s3,
                                        fc as nat,
                                        v,
                                        v2,
                                        flags,
                                        s4,
                                    );
                                    match sp_table::<(PlatformShaderStage, ShaderCode)>(
                                        s4,
                                        cc as nat,
                                        v,
                                    ) {
                                        Err(_) => {
                                            assert(false);
                                        },
                                        Ok((codes, s5)) => {
                                            lemma_table_parse_wf::<
                                                (PlatformShaderStage, ShaderCode),
                                            >(s4, cc as nat, v, v2, codes, s5);
                                        },
                                    }
                                },
                            }
                        },
                    }
                },
            }
        },
    }
}

impl TableEntry for Variant {
    type VV = VariantView;

    open spec fn vw(&self) -> VariantView {
        self@
    }

    open spec fn sp_entry(s: Seq<u8>, v: MinecraftVersion) -> Result<
        (VariantView, Seq<u8>),
        ReadError,
    > {
        sp_variant(s, v)
    }

    open spec fn se_entry(t: VariantView, v: MinecraftVersion) -> Result<Seq<u8>, WriteError> {
        se_variant(t, v)
    }

    open spec fn wf_entry(t: VariantView, v: MinecraftVersion) -> bool {
        wf_variant(t, v)
    }

    open spec fn norm_entry(t: VariantView, v: MinecraftVersion) -> VariantView {
        t
    }

    fn read_entry(data: &Vec<u8>, off: usize, v: MinecraftVersion) -> (r: Result<
        (Self, usize),
        ReadError,
    >) {
        Variant::read(data, off, v)
    }

    fn write_entry(&self, v: MinecraftVersion, out: &mut Vec<u8>) -> (r: Result<(), WriteError>) {
        self.write(out, v)
    }

    proof fn entry_rt(t: VariantView, v: MinecraftVersion, rest: Seq<u8>) {
        lemma_variant_rt(t, v, rest);
    }

    proof fn entry_norm(t: VariantView, v: MinecraftVersion) {
    }

    proof fn entry_parse_wf(
        s: Seq<u8>,
        v: MinecraftVersion,
        v2: MinecraftVersion,
        t: VariantView,
        rest: Seq<u8>,
    ) {
        lemma_variant_parse_wf(s, v, v2, t, rest);
    }
}

// ---------------------------------------------------------------------
// Pass
// ---------------------------------------------------------------------

/// One render pass: its bitset key, fallback name, optional default
/// blend mode, default flag values, and variants.
#[derive(Debug)]
pub struct Pass {
    pub bitset: Vec<u8>,
    pub fallback: Vec<u8>,
    pub default_blendmode: Option<BlendMode>,
    pub default_flag_values: Vec<(Vec<u8>, Vec<u8>)>,
    pub variants: Vec<Variant>,
}

#[verifier::ext_equal]
pub ghost struct PassView {
    pub bitset: Seq<u8>,
    pub fallback: Seq<u8>,
    pub default_blendmode: Option<BlendMode>,
    pub default_flag_values: Seq<(Seq<u8>, Seq<u8>)>,
    pub variants: Seq<VariantView>,
}

impl View for Pass {
    type V = PassView;

    open spec fn view(&self) -> PassView {
        PassView {
            bitset: self.bitset@,
            fallback: self.fallback@,
            default_blendmode: self.default_blendmode,
            default_flag_values: vw_tbl::<(Vec<u8>, Vec<u8>)>(self.default_flag_values@),
            variants: vw_tbl::<Variant>(self.variants@),
        }
    }
}

/// The bitset of the oldest schema: peek one 32-bit word; the bitset
/// string is present exactly when its low byte is 15, and otherwise a
/// single byte is skipped and the bitset is empty.
pub open spec fn sp_pass_bitset(s: Seq<u8>, v: MinecraftVersion) -> Result<
    (Seq<u8>, Seq<u8>),
    ReadError,
> {
    if v == MinecraftVersion::V1_18_30 {
        match sp_u32(s) {
            Ok((w, _)) => if w % 256 == 15 {
                sp_string(s)
            } else {
                Ok((Seq::empty(), s.skip(1)))
            },
            Err(e) => Err(e),
        }
    } else {
        sp_string(s)
    }
}

pub open spec fn sp_pass(s: Seq<u8>, v: MinecraftVersion) -> Result<(PassView, Seq<u8>), ReadError> {
    match sp_pass_bitset(s, v) {
        Ok((bitset, s1)) => match sp_string(s1) {
            Ok((fallback, s2)) => {
                let bmres = match sp_bool(s2) {
                    Ok((p, s3)) => if p {
                        match sp_blend_mode(s3) {
                            Ok((m, s4)) => Ok((Some(m), s4)),
                            Err(e) => Err(e),
                        }
                    } else {
                        Ok((None, s3))
                    },
                    Err(e) => Err(e),
                };
                match bmres {
                    Ok((bm, s4)) => match sp_u16(s4) {
                        Ok((fc, s5)) => match sp_table::<(Vec<u8>, Vec<u8>)>(s5, fc as nat, v) {
                            Ok((flags, s6)) => match sp_u16(s6) {
                                Ok((vc, s7)) => match sp_table::<Variant>(s7, vc as nat, v) {
                                    Ok((variants, s8)) => Ok(
                                        (
                                            PassView {
                                                bitset,
                                                fallback,
                                                default_blendmode: bm,
                                                default_flag_values: flags,
                                                variants,
                                            },
                                            s8,
                                        ),
                                    ),
                                    Err(e) => Err(e),
                                },
                                Err(e) => Err(e),
                            },
                            Err(e) => Err(e),
                        },
                        Err(e) => Err(e),
                    },
                    Err(e) => Err(e),
                }
            },
            Err(e) => Err(e),
        },
        Err(e) => Err(e),
    }
}

pub open spec fn se_opt_blend_mode(o: Option<BlendMode>) -> Seq<u8> {
    match o {
        Some(m) => se_bool(true) + se_u16(m.as_u16_spec()),
        None => se_bool(false),
    }
}

/// What the emitter writes for a pass. An empty bitset is refused
/// before anything is written, at every schema.
pub open spec fn se_pass(t: PassView, v: MinecraftVersion) -> Result<Seq<u8>, WriteError> {
    if t.bitset.len() == 0 {
        Err(WriteError::CompatRefusal { why: CompatReason::EmptyBitset })
    } else {
        match se_string(t.bitset) {
            Ok(b1) => match se_string(t.fallback) {
                Ok(b2) => if t.default_flag_values.len() > 0xFFFF {
                    Err(WriteError::IntOverflow)
                } else {
                    match se_table::<(Vec<u8>, Vec<u8>)>(t.default_flag_values, v) {
                        Ok(bf) => if t.variants.len() > 0xFFFF {
                            Err(WriteError::IntOverflow)
                        } else {
                            match se_table::<Variant>(t.variants, v) {
                                Ok(bv) => Ok(
                                    b1 + b2 + se_opt_blend_mode(t.default_blendmode) + se_u16(
                                        t.default_flag_values.len() as u16,
                                    ) + bf + se_u16(t.variants.len() as u16) + bv,
                                ),
                                Err(e) => Err(e),
                            }
                        },
                        Err(e) => Err(e),
                    }
                },
                Err(e) => Err(e),
            },
            Err(e) => Err(e),
        }
    }
}

pub open spec fn wf_pass(t: PassView, v: MinecraftVersion) -> bool {
    &&& is_utf8(t.bitset)
    &&& is_utf8(t.fallback)
    &&& wf_tbl::<(Vec<u8>, Vec<u8>)>(t.default_flag_values, v)
    &&& wf_tbl::<Variant>(t.variants, v)
    &&& (v == MinecraftVersion::V1_18_30 ==> t.bitset.len() % 256 == 15)
}

impl Pass {
    #[verifier::rlimit(100)]
    #[verifier::spinoff_prover]
    pub fn read(data: &Vec<u8>, off: usize, v: MinecraftVersion) -> (r: Result<
        (Self, usize),
        ReadError,
    >)
        requires
            off <= data@.len(),
        ensures
            match r {
                Ok((t, off2)) => off <= off2 <= data@.len() && sp_pass(data@.skip(off as int), v)
                    == Ok::<_, ReadError>((t@, data@.skip(off2 as int))),
                Err(e) => sp_pass(data@.skip(off as int), v) == Err::<(PassView, Seq<u8>), _>(e),
            },
    {
        let bsres: Result<(Vec<u8>, usize), ReadError> = if v == MinecraftVersion::V1_18_30 {
            match read_u32(data, off) {
                Ok((w, _peek_end)) => if w % 256 == 15 {
                    read_string(data, off)
                } else {
                    proof {
                        lemma_skip_skip(data@, off as int, 1);
                    }
                    Ok((Vec::new(), off + 1))
                },
                Err(e) => Err(e),
            }
        } else {
            read_string(data, off)
        };
        match bsres {
            Ok((bitset, o1)) => match read_string(data, o1) {
                Ok((fallback, o2)) => {
                    let bmres: Result<(Option<BlendMode>, usize), ReadError> = match read_bool(
                        data,
                        o2,
                    ) {
                        Ok((p, o3)) => if p {
                            match read_blend_mode(data, o3) {
                                Ok((m, o4)) => Ok((Some(m), o4)),
                                Err(e) => Err(e),
                            }
                        } else {
                            Ok((None, o3))
                        },
                        Err(e) => Err(e),
                    };
                    match bmres {
                        Ok((bm, o4)) => match read_u16(data, o4) {
                            Ok((fc, o5)) => match read_table::<(Vec<u8>, Vec<u8>)>(
                                data,
                                o5,
                                fc as usize,
                                v,
                            ) {
                                Ok((flags, o6)) => match read_u16(data, o6) {
                                    Ok((vc, o7)) => match read_table::<Variant>(
                                        data,
                                        o7,
                                        vc as usize,
                                        v,
                                    ) {
                                        Ok((variants, o8)) => Ok(
                                            (
                                                Pass {
                                                    bitset,
                                                    fallback,
                                                    default_blendmode: bm,
                                                    default_flag_values: flags,
                                                    variants,
                                                },
                                                o8,
                                            ),
                                        ),
                                        Err(e) => Err(e),
                                    },
                                    Err(e) => Err(e),
                                },
                                Err(e) => Err(e),
                            },
                            Err(e) => Err(e),
                        },
                        Err(e) => Err(e),
                    }
                },
                Err(e) => Err(e),
            },
            Err(e) => Err(e),
        }
    }

    /// Emit the pass at schema `v`. An empty bitset is refused with
    /// `CompatRefusal` at every schema, before anything is written.
    #[verifier::rlimit(100)]
    #[verifier::spinoff_prover]
    pub fn write(&self, out: &mut Vec<u8>, v: MinecraftVersion) -> (r: Result<(), WriteError>)
        ensures
            match se_pass(self@, v) {
                Ok(b) => r == Ok::<(), WriteError>(()) && final(out)@ == old(out)@ + b,
                Err(e) => r == Err::<(), WriteError>(e),
            },
            self@.bitset.len() == 0 ==> r == Err::<(), WriteError>(
                WriteError::CompatRefusal { why: CompatReason::EmptyBitset },
            ),
    {
        if self.bitset.len() == 0 {
            return Err(WriteError::CompatRefusal { why: CompatReason::EmptyBitset });
        }
        match write_string(&self.bitset, out) {
            Ok(()) => {},
            Err(e) => {
                return Err(e);
            },
        }
        match write_string(&self.fallback, out) {
            Ok(()) => {},
            Err(e) => {
                return Err(e);
            },
        }
        match self.default_blendmode {
            Some(m) => {
                write_bool(out, true);
                write_u16(out, m.as_u16());
            },
            None => {
                write_bool(out, false);
            },
        }
        if self.default_flag_values.len() > 0xFFFF {
            return Err(WriteError::IntOverflow);
        }
        write_u16(out, self.default_flag_values.len() as u16);
        match write_table::<(Vec<u8>, Vec<u8>)>(&self.default_flag_values, v, out) {
            Ok(()) => {},
            Err(e) => {
                return Err(e);
            },
        }
        if self.variants.len() > 0xFFFF {
            return Err(WriteError::IntOverflow);
        }
        write_u16(out, self.variants.len() as u16);
        match write_table::<Variant>(&self.variants, v, out) {
            Ok(()) => {},
            Err(e) => {
                return Err(e);
            },
        }
        proof {
            match se_pass(self@, v) {
                Ok(b) => {
                    let t = self@;
                    let b1 = se_string(t.bitset)->Ok_0;
                    let b2 = se_string(t.fallback)->Ok_0;
                    let a3 = se_opt_blend_mode(t.default_blendmode);
                    let a4 = se_u16(t.default_flag_values.len() as u16);
                    let bf = se_table::<(Vec<u8>, Vec<u8>)>(t.default_flag_values, v)->Ok_0;
                    let a6 = se_u16(t.variants.len() as u16);
                    let bv = se_table::<Variant>(t.variants, v)->Ok_0;
                    let o0 = old(out)@;
                    seq_assoc(o0, b1, b2);
                    seq_assoc(o0, b1 + b2, a3);
                    seq_assoc(o0, b1 + b2 + a3, a4);
                    seq_assoc(o0, b1 + b2 + a3 + a4, bf);
                    seq_assoc(o0, b1 + b2 + a3 + a4 + bf, a6);
                    seq_assoc(o0, b1 + b2 + a3 + a4 + bf + a6, bv);
                    assert(out@ == o0 + b);
                },
                Err(_) => {
                    assert(false);
                },
            }
        }
        Ok(())
    }
}

/// Emitting a well-formed pass at schema `v` and parsing the bytes
/// back yields the pass unchanged; on the oldest schema this relies
/// on the bitset length carrying the marker byte the peek looks for.
#[verifier::rlimit(100)]
pub proof fn lemma_pass_rt(t: PassView, v: MinecraftVersion, rest: Seq<u8>)
    requires
        wf_pass(t, v),
    ensures
        match se_pass(t, v) {
            Ok(b) => sp_pass(b + rest, v) == Ok::<_, ReadError>((t, rest)),
            Err(_) => true,
        },
{
    match se_pass(t, v) {
        Err(_) => {},
        Ok(b) => {
            let b1 = se_string(t.bitset)->Ok_0;
            let b2 = se_string(t.fallback)->Ok_0;
            let a3 = se_opt_blend_mode(t.default_blendmode);
            let a4 = se_u16(t.default_flag_values.len() as u16);
            let bf = se_table::<(Vec<u8>, Vec<u8>)>(t.default_flag_values, v)->Ok_0;
            let a6 = se_u16(t.variants.len() as u16);
            let bv = se_table::<Variant>(t.variants, v)->Ok_0;
            let r7 = rest;
            let r6 = bv + r7;
            let r5 = a6 + r6;
            let r4 = bf + r5;
            let r3 = a4 + r4;
            let r2 = a3 + r3;
            let r1 = b2 + r2;
            seq_assoc(b1 + b2 + a3 + a4 + bf + a6, bv, rest);
            seq_assoc(b1 + b2 + a3 + a4 + bf, a6, r6);
            seq_assoc(b1 + b2 + a3 + a4, bf, r5);
            seq_assoc(b1 + b2 + a3, a4, r4);
            seq_assoc(b1 + b2, a3, r3);
            seq_assoc(b1, b2, r2);
            assert(b + rest == b1 + r1);
            lemma_string_rt(t.bitset, r1);
            if v == MinecraftVersion::V1_18_30 {
                let n32 = t.bitset.len() as u32;
                lemma_u32_rt(n32, t.bitset + r1);
                assert(b1 + r1 == se_u32(n32) + (t.bitset + r1)) by {
                    seq_assoc(se_u32(n32), t.bitset, r1);
                }
                assert(n32 % 256 == 15);
                assert(sp_pass_bitset(b + rest, v) == Ok::<_, ReadError>((t.bitset, r1)));
            }
            lemma_string_rt(t.fallback, r2);
            match t.default_blendmode {
                Some(m) => {
                    seq_assoc(se_bool(true), se_u16(m.as_u16_spec()), r3);
                    lemma_bool_rt(true, se_u16(m.as_u16_spec()) + r3);
                    lemma_blend_mode_rt(m, r3);
                },
                None => {
                    lemma_bool_rt(false, r3);
                },
            }
            lemma_u16_rt(t.default_flag_values.len() as u16, r4);
            lemma_table_rt::<(Vec<u8>, Vec<u8>)>(t.default_flag_values, v, r5);
            assert(norm_tbl::<(Vec<u8>, Vec<u8>)>(t.default_flag_values, v)
                =~= t.default_flag_values);
            lemma_u16_rt(t.variants.len() as u16, r6);
            lemma_table_rt::<Variant>(t.variants, v, r7);
            assert(norm_tbl::<Variant>(t.variants, v) =~= t.variants);
            assert(sp_pass(b + rest, v) == Ok::<_, ReadError>((t, rest)));
        },
    }
}

/// A parsed pass is well formed for every schema other than the
/// oldest: its strings are UTF-8 and its tables hold well-formed
/// entries. The oldest schema additionally asks the bitset length to
/// carry the marker byte, which a parse at another schema does not
/// establish.
#[verifier::rlimit(100)]
#[verifier::spinoff_prover]
pub proof fn lemma_pass_parse_wf(
    s: Seq<u8>,
    v: MinecraftVersion,
    v2: MinecraftVersion,
    t: PassView,
    rest: Seq<u8>,
)
    requires
        sp_pass(s, v) == Ok::<(PassView, Seq<u8>), ReadError>((t, rest)),
        v2 != MinecraftVersion::V1_18_30,
    ensures
        wf_pass(t, v2),
{
    match sp_pass_bitset(s, v) {
        Err(_) => {
            assert(false);
        },
        Ok((bitset, s1)) => {
            assert(is_utf8(bitset)) by {
                if v == MinecraftVersion::V1_18_30 {
                    match sp_u32(s) {
                        Err(_) => {
                            assert(false);
                        },
                        Ok((w, _)) => {
                            if w % 256 == 15 {
                                lemma_string_utf8(s, bitset, s1);
                            } else {
                                assert(bitset =~= Seq::<u8>::empty());
                            }
                        },
                    }
                } else {
                    lemma_string_utf8(s, bitset, s1);
                }
            }
            match sp_string(s1) {
                Err(_) => {
                    assert(false);
                },
                Ok((fallback, s2)) => {
                    lemma_string_utf8(s1, fallback, s2);
                    let bmres = match sp_bool(s2) {
                        Ok((p, s3)) => if p {
                            match sp_blend_mode(s3) {
                                Ok((m, s4)) => Ok((Some(m), s4)),
                                Err(e) => Err(e),
                            }
                        } else {
                            Ok((None::<BlendMode>, s3))
                        },
                        Err(e) => Err(e),
                    };
                    match bmres {
                        Err(_) => {
                            assert(false);
                        },
                        Ok((bm, s4)) => {
                            match sp_u16(s4) {
                                Err(_) => {
                                    assert(false);
                                },
                                Ok((fc, s5)) => {
                                    match sp_table::<(Vec<u8>, Vec<u8>)>(s5, fc as nat, v) {
                                        Err(_) => {
                                            assert(false);
                                        },
                                        Ok((flags, s6)) => {
                                            lemma_table_parse_wf::<(Vec<u8>, Vec<u8>)>(
                                                s5,
                                                fc as nat,
                                                v,
                                                v2,
                                                flags,
                                                s6,
                                            );
                                            match sp_u16(s6) {
                                                Err(_) => {
                                                    assert(false);
                                                },
                                                Ok((vc, s7)) => {
                                                    match sp_table::<Variant>(s7, vc as nat, v) {
                                                        Err(_) => {
                                                            assert(false);
                                                        },
                                                        Ok((variants, s8)) => {
                                                            lemma_table_parse_wf::<Variant>(
                                                                s7,
                                                                vc as nat,
                                                                v,
                                                                v2,
                                                                variants,
                                                                s8,
                                                            );
                                                        },
                                                    }
                                                },
                                            }
                                        },
                                    }
                                },
                            }
                        },
                    }
                },
            }
        },
    }
}

impl TableEntry for (Vec<u8>, Pass) {
    type VV = (Seq<u8>, PassView);

    open spec fn vw(&self) -> (Seq<u8>, PassView) {
        (self.0@, self.1@)
    }

    open spec fn sp_entry(s: Seq<u8>, v: MinecraftVersion) -> Result<
        ((Seq<u8>, PassView), Seq<u8>),
        ReadError,
    > {
        match sp_string(s) {
            Ok((name, s1)) => match sp_pass(s1, v) {
                Ok((t, s2)) => Ok(((name, t), s2)),
                Err(e) => Err(e),
            },
            Err(e) => Err(e),
        }
    }

    open spec fn se_entry(t: (Seq<u8>, PassView), v: MinecraftVersion) -> Result<Seq<u8>, WriteError> {
        match se_string(t.0) {
            Ok(nb) => match se_pass(t.1, v) {
                Ok(b) => Ok(nb + b),
                Err(e) => Err(e),
            },
            Err(e) => Err(e),
        }
    }

    open spec fn wf_entry(t: (Seq<u8>, PassView), v: MinecraftVersion) -> bool {
        is_utf8(t.0) && wf_pass(t.1, v)
    }

    open spec fn norm_entry(t: (Seq<u8>, PassView), v: MinecraftVersion) -> (Seq<u8>, PassView) {
        t
    }

    fn read_entry(data: &Vec<u8>, off: usize, v: MinecraftVersion) -> (r: Result<
        (Self, usize),
        ReadError,
    >) {
        match read_string(data, off) {
            Ok((name, o1)) => match Pass::read(data, o1, v) {
                Ok((t, o2)) => Ok(((name, t), o2)),
                Err(e) => Err(e),
            },
            Err(e) => Err(e),
        }
    }

    fn write_entry(&self, v: MinecraftVersion, out: &mut Vec<u8>) -> (r: Result<(), WriteError>) {
        match write_string(&self.0, out) {
            Ok(()) => {
                let r = self.1.write(out, v);
                proof {
                    match se_string(self.0@) {
                        Ok(nb) => {
                            match se_pass(self.1@, v) {
                                Ok(b) => {
                                    assert(out@ =~= old(out)@ + (nb + b));
                                },
                                Err(_) => {},
                            }
                        },
                        Err(_) => {},
                    }
                }
                r
            },
            Err(e) => Err(e),
        }
    }

    proof fn entry_rt(t: (Seq<u8>, PassView), v: MinecraftVersion, rest: Seq<u8>) {
        match se_string(t.0) {
            Ok(nb) => {
                match se_pass(t.1, v) {
                    Ok(b) => {
                        seq_assoc(nb, b, rest);
                        lemma_string_rt(t.0, b + rest);
                        lemma_pass_rt(t.1, v, rest);
                    },
                    Err(_) => {},
                }
            },
            Err(_) => {},
        }
    }

    proof fn entry_norm(t: (Seq<u8>, PassView), v: MinecraftVersion) {
    }

    proof fn entry_parse_wf(
        s: Seq<u8>,
        v: MinecraftVersion,
        v2: MinecraftVersion,
        t: (Seq<u8>, PassView),
        rest: Seq<u8>,
    ) {
        match sp_string(s) {
            Err(_) => {
                assert(false);
            },
            Ok((name, s1)) => {
                lemma_string_utf8(s, name, s1);
                match sp_pass(s1, v) {
                    Err(_) => {
                        assert(false);
                    },
                    Ok((p, s2)) => {
                        lemma_pass_parse_wf(s1, v, v2, p, s2);
                    },
                }
            },
        }
    }
}

} // verus!
