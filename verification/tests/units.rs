use mt_updater::bgfx_shader::{BgfxShader, BgfxTrailer, Uniform};
use mt_updater::common::{check_utf8, read_u16, read_u32, read_u64};
use mt_updater::error::{ReadError, TagKind, WriteError};
use mt_updater::pass::{read_blend_mode, BlendMode, Pass, Variant};
use mt_updater::property_field::{read_property_type, PropertyField, PropertyType};
use mt_updater::sampler_definition::{
    read_precision, read_sampler_access, read_sampler_type, Precision, SamplerAccess, SamplerType,
};
use mt_updater::schema::MinecraftVersion;
use mt_updater::shader::{
    read_attribute, read_interpolation_constraint, read_precision_constraint, read_shader_code_platform,
    read_shader_input_type, read_shader_stage, Attribute, InterpolationConstraint,
    PlatformShaderStage, PrecisionConstraint, ShaderCode, ShaderCodePlatform, ShaderInput,
    ShaderInputType, ShaderStage,
};
use mt_updater::{read_encryption_variant, CompiledMaterialDefinition, EncryptionVariant};

#[test]
fn little_endian_words() {
    let data = vec![0x78, 0x56, 0x34, 0x12, 0xEF, 0xCD, 0xAB, 0x90];
    assert_eq!(read_u16(&data, 0).unwrap(), (0x5678, 2));
    assert_eq!(read_u32(&data, 0).unwrap(), (0x12345678, 4));
    assert_eq!(read_u64(&data, 0).unwrap(), (0x90ABCDEF12345678, 8));
    assert!(matches!(read_u32(&data, 6).unwrap_err(), ReadError::ShortRead { .. }));
}

#[test]
fn utf8_checker() {
    assert!(check_utf8(&b"plain ascii".to_vec()));
    assert!(check_utf8(&"héllo €".as_bytes().to_vec()));
    assert!(check_utf8(&"\u{10348}".as_bytes().to_vec()));
    assert!(!check_utf8(&vec![0xFF]));
    assert!(!check_utf8(&vec![0xC2])); // truncated sequence
    assert!(!check_utf8(&vec![0xED, 0xA0, 0x80])); // surrogate
    assert!(!check_utf8(&vec![0xC0, 0xAF])); // overlong
}

#[test]
fn blend_mode_totality() {
    let all = [
        BlendMode::NoBlending,
        BlendMode::Replace,
        BlendMode::AlphaBlend,
        BlendMode::ColorBlendAlphaAdd,
        BlendMode::PreMultiplied,
        BlendMode::InvertColor,
        BlendMode::Additive,
        BlendMode::AdditiveAlpha,
        BlendMode::Multiply,
        BlendMode::MultiplyBoth,
        BlendMode::InverseSrcAlpha,
        BlendMode::SrcAlpha,
    ];
    for (i, m) in all.iter().enumerate() {
        assert_eq!(m.as_u16(), i as u16);
        let data = m.as_u16().to_le_bytes().to_vec();
        assert_eq!(read_blend_mode(&data, 0).unwrap(), (*m, 2));
    }
    let bad = 12u16.to_le_bytes().to_vec();
    assert_eq!(
        read_blend_mode(&bad, 0).unwrap_err(),
        ReadError::InvalidTag { which: TagKind::BlendMode, value: 12 }
    );
}

#[test]
fn sampler_access_and_precision_totality() {
    let accesses =
        [SamplerAccess::NoAccess, SamplerAccess::Read, SamplerAccess::Write, SamplerAccess::ReadWrite];
    for (i, a) in accesses.iter().enumerate() {
        assert_eq!(a.as_u8(), i as u8);
        assert_eq!(read_sampler_access(&vec![i as u8], 0).unwrap(), (*a, 1));
    }
    assert!(read_sampler_access(&vec![4], 0).is_err());
    let precisions = [Precision::Low, Precision::Medium, Precision::High];
    for (i, p) in precisions.iter().enumerate() {
        assert_eq!(read_precision(&vec![i as u8], 0).unwrap(), (*p, 1));
    }
    assert!(read_precision(&vec![3], 0).is_err());
}

#[test]
fn sampler_type_shift_law() {
    let all = [
        SamplerType::Type2D,
        SamplerType::Type2DArray,
        SamplerType::Type2DExternal,
        SamplerType::Type3D,
        SamplerType::TypeCube,
        SamplerType::TypeSamplerCubeArray,
        SamplerType::TypeStructuredBuffer,
        SamplerType::TypeRawBuffer,
        SamplerType::TypeAccelerationStructure,
        SamplerType::Type2DShadow,
        SamplerType::Type2DArrayShadow,
    ];
    for (i, t) in all.iter().enumerate() {
        let ord = i as u8;
        // On 1.21.20 the stored value is the canonical ordinal.
        assert_eq!(t.to_u8(MinecraftVersion::V1_21_20).unwrap(), ord);
        let back = read_sampler_type(&vec![ord], 0, MinecraftVersion::V1_21_20).unwrap();
        assert_eq!(back, (*t, 1));
        // Elsewhere, values above the cube-array slot store one less,
        // and the cube array itself is refused.
        if *t == SamplerType::TypeSamplerCubeArray {
            assert!(t.to_u8(MinecraftVersion::V1_20_80).is_err());
        } else {
            let stored = t.to_u8(MinecraftVersion::V1_20_80).unwrap();
            assert_eq!(stored, if ord >= 6 { ord - 1 } else { ord });
            let rb = read_sampler_type(&vec![stored], 0, MinecraftVersion::V1_20_80).unwrap();
            assert_eq!(rb, (*t, 1));
        }
    }
    assert!(read_sampler_type(&vec![11], 0, MinecraftVersion::V1_21_20).is_err());
    assert!(read_sampler_type(&vec![10], 0, MinecraftVersion::V1_20_80).is_err());
}

#[test]
fn property_type_totality() {
    let all = [PropertyType::Vec4, PropertyType::Mat3, PropertyType::Mat4, PropertyType::External];
    for t in all.iter() {
        let data = t.to_u16().to_le_bytes().to_vec();
        assert_eq!(read_property_type(&data, 0).unwrap(), (*t, 2));
    }
    assert_eq!(
        read_property_type(&vec![1, 0], 0).unwrap_err(),
        ReadError::InvalidTag { which: TagKind::PropertyType, value: 1 }
    );
}

#[test]
fn shader_enums_totality() {
    for i in 0..13u8 {
        let (t, n) = read_shader_input_type(&vec![i], 0).unwrap();
        assert_eq!(n, 1);
        assert_eq!(t.as_u8(), i);
    }
    assert!(read_shader_input_type(&vec![13], 0).is_err());
    for i in 0..4u8 {
        let (t, _) = read_shader_stage(&vec![i], 0).unwrap();
        assert_eq!(t.as_u8(), i);
    }
    assert!(read_shader_stage(&vec![4], 0).is_err());
    for i in 0..15u8 {
        let (t, _) = read_shader_code_platform(&vec![i], 0).unwrap();
        assert_eq!(t.as_u8(), i);
    }
    assert!(read_shader_code_platform(&vec![15], 0).is_err());
    for i in 0..3u8 {
        let (t, _) = read_precision_constraint(&vec![i], 0).unwrap();
        assert_eq!(t.as_u8(), i);
    }
    assert!(read_precision_constraint(&vec![3], 0).is_err());
    for i in 0..4u8 {
        let (t, _) = read_interpolation_constraint(&vec![i], 0).unwrap();
        assert_eq!(t.as_u8(), i);
    }
    assert!(read_interpolation_constraint(&vec![4], 0).is_err());
}

#[test]
fn attribute_tuples_total_and_gappy() {
    let all = [
        Attribute::Position,
        Attribute::Normal,
        Attribute::Tangent,
        Attribute::Bitangent,
        Attribute::Color0,
        Attribute::Color1,
        Attribute::Color2,
        Attribute::Color3,
        Attribute::Indices,
        Attribute::Weights,
        Attribute::TexCoord0,
        Attribute::TexCoord1,
        Attribute::TexCoord2,
        Attribute::TexCoord3,
        Attribute::TexCoord4,
        Attribute::TexCoord5,
        Attribute::TexCoord6,
        Attribute::TexCoord7,
        Attribute::TexCoord8,
        Attribute::FrontFacing,
    ];
    for a in all.iter() {
        let (i, s) = a.to_tuple();
        assert_eq!(read_attribute(&vec![i, s], 0).unwrap(), (*a, 2));
    }
    assert_eq!(
        read_attribute(&vec![8, 0], 0).unwrap_err(),
        ReadError::InvalidTag { which: TagKind::Attribute, value: 8 * 256 }
    );
}

#[test]
fn encryption_variant_totality() {
    let all = [
        EncryptionVariant::NoEncryption,
        EncryptionVariant::SimplePassphrase,
        EncryptionVariant::KeyPair,
    ];
    for ev in all.iter() {
        let data = ev.as_u32().to_le_bytes().to_vec();
        assert_eq!(read_encryption_variant(&data, 0).unwrap(), (*ev, 4));
    }
}

#[test]
fn property_field_payload_sizing() {
    // Vec4 with data: tag 2, count, has-data, 16 bytes.
    let mut data = 2u16.to_le_bytes().to_vec();
    data.extend_from_slice(&7u32.to_le_bytes());
    data.push(1);
    data.extend_from_slice(&[0xAB; 16]);
    let (p, used) = PropertyField::read(&data, 0).unwrap();
    assert_eq!(used, data.len());
    assert_eq!(p.num, 7);
    assert_eq!(p.vector_data.as_deref(), Some([0xAB; 16].as_slice()));
    assert!(p.matrix_data.is_none());

    // Mat3 takes 36, Mat4 takes 64.
    for (tag, width) in [(3u16, 36usize), (4, 64)] {
        let mut d = tag.to_le_bytes().to_vec();
        d.extend_from_slice(&0u32.to_le_bytes());
        d.push(1);
        d.extend_from_slice(&vec![0x11; width]);
        let (q, used2) = PropertyField::read(&d, 0).unwrap();
        assert_eq!(used2, d.len());
        assert_eq!(q.matrix_data.as_deref().map(|m| m.len()), Some(width));
    }

    // External carries neither count nor payload: tag, has-data byte.
    let d = vec![5, 0, 0];
    let (x, used3) = PropertyField::read(&d, 0).unwrap();
    assert_eq!(used3, 3);
    assert_eq!(x.num, 0);
    assert!(x.vector_data.is_none() && x.matrix_data.is_none());
    let mut out = Vec::new();
    x.write(&mut out).unwrap();
    assert_eq!(out, vec![5, 0, 0]);
}

#[test]
fn bgfx_shader_round_trip() {
    let sh = BgfxShader {
        magic: 0x07535856,
        hash: 0xDEADBEEF,
        uniforms: vec![Uniform {
            name: b"u_color".to_vec(),
            utype: 2,
            num: 1,
            reg_index: 4,
            reg_count: 1,
        }],
        code: vec![1, 2, 3, 4, 5],
        trailer: Some(BgfxTrailer { attributes: vec![10, 20, 30], struct_size: 44 }),
    };
    let mut out = Vec::new();
    sh.write(&mut out).unwrap();
    let (back, used) = BgfxShader::read(&out, 0).unwrap();
    assert_eq!(used, out.len());
    assert_eq!(back.magic, sh.magic);
    assert_eq!(back.hash, sh.hash);
    assert_eq!(back.uniforms.len(), 1);
    assert_eq!(back.uniforms[0].name, b"u_color".to_vec());
    assert_eq!(back.uniforms[0].reg_index, 4);
    assert_eq!(back.code, sh.code);
    let tr = back.trailer.unwrap();
    assert_eq!(tr.attributes, vec![10, 20, 30]);
    assert_eq!(tr.struct_size, 44);
    // Without a trailer nothing follows the terminator byte.
    let bare = BgfxShader { magic: 1, hash: 2, uniforms: vec![], code: vec![9], trailer: None };
    let mut out2 = Vec::new();
    bare.write(&mut out2).unwrap();
    let (back2, used2) = BgfxShader::read(&out2, 0).unwrap();
    assert_eq!(used2, out2.len());
    assert!(back2.trailer.is_none());
}

fn rich_material() -> CompiledMaterialDefinition {
    let input = ShaderInput {
        input_type: ShaderInputType::Vec4,
        attribute: Attribute::TexCoord1,
        is_per_instance: true,
        precision_constraint: Some(PrecisionConstraint::High),
        interpolation_constraint: Some(InterpolationConstraint::Centroid),
    };
    let code = ShaderCode {
        shader_inputs: vec![(b"a_texcoord".to_vec(), input)],
        source_hash: 0x1122334455667788,
        bgfx_shader_data: vec![0xCA, 0xFE, 0xBA, 0xBE],
    };
    let key = PlatformShaderStage {
        stage_name: b"vertex".to_vec(),
        platform_name: b"ESSL_310".to_vec(),
        stage: ShaderStage::Vertex,
        platform: ShaderCodePlatform::Essl310,
    };
    let variant = Variant {
        is_supported: true,
        flags: vec![(b"FLAG".to_vec(), b"On".to_vec())],
        shader_codes: vec![(key, code)],
    };
    let pass = Pass {
        bitset: b"101".to_vec(),
        fallback: b"Fallback".to_vec(),
        default_blendmode: Some(BlendMode::AlphaBlend),
        default_flag_values: vec![(b"FLAG".to_vec(), b"Off".to_vec())],
        variants: vec![variant],
    };
    let prop = PropertyField {
        field_type: PropertyType::Vec4,
        num: 1,
        vector_data: Some(vec![0x3F; 16]),
        matrix_data: None,
    };
    CompiledMaterialDefinition {
        version: 22,
        encryption_variant: EncryptionVariant::NoEncryption,
        name: b"my_material".to_vec(),
        parent_name: Some(b"parent".to_vec()),
        sampler_definitions: Vec::new(),
        property_fields: vec![(b"u_color".to_vec(), prop)],
        overrides: None,
        passes: vec![(b"main".to_vec(), pass)],
    }
}

#[test]
fn rich_material_round_trip_same_schema() {
    let mat = rich_material();
    let mut f = Vec::new();
    mat.write(&mut f, MinecraftVersion::V1_20_80).unwrap();
    let (back, used) = CompiledMaterialDefinition::read(&f, MinecraftVersion::V1_20_80).unwrap();
    assert_eq!(used, f.len());
    let mut again = Vec::new();
    back.write(&mut again, MinecraftVersion::V1_20_80).unwrap();
    assert_eq!(again, f);
    // Spot checks through the whole tree.
    let p = &back.passes[0].1;
    assert_eq!(p.default_blendmode, Some(BlendMode::AlphaBlend));
    let var = &p.variants[0];
    assert!(var.is_supported);
    assert_eq!(var.flags[0].1, b"On".to_vec());
    let (k, c) = &var.shader_codes[0];
    assert_eq!(k.platform, ShaderCodePlatform::Essl310);
    assert_eq!(c.source_hash, 0x1122334455667788);
    assert_eq!(c.shader_inputs[0].1.attribute, Attribute::TexCoord1);
}

#[test]
fn rich_material_reemits_cleanly_across_schemas() {
    let mat = rich_material();
    let mut f = Vec::new();
    mat.write(&mut f, MinecraftVersion::V1_20_80).unwrap();
    let (t, _) = CompiledMaterialDefinition::read(&f, MinecraftVersion::V1_20_80).unwrap();
    for target in [
        MinecraftVersion::V1_19_60,
        MinecraftVersion::V1_21_20,
        MinecraftVersion::V1_21_110,
        MinecraftVersion::V26_0_24,
    ] {
        let mut g = Vec::new();
        t.write(&mut g, target).unwrap();
        let (t2, used) = CompiledMaterialDefinition::read(&g, target).unwrap();
        assert_eq!(used, g.len());
        let mut h = Vec::new();
        t2.write(&mut h, target).unwrap();
        assert_eq!(h, g);
    }
}

#[test]
fn oldest_schema_bitset_marker_round_trip() {
    // On 1.18.30 a stored bitset must have a length whose low byte is
    // 15 for the reader's peek to find it again.
    let mut mat = rich_material();
    mat.passes[0].1.bitset = b"111000111000111".to_vec(); // length 15
    mat.passes[0].1.variants.clear();
    let mut f = Vec::new();
    mat.write(&mut f, MinecraftVersion::V1_18_30).unwrap();
    let (back, used) = CompiledMaterialDefinition::read(&f, MinecraftVersion::V1_18_30).unwrap();
    assert_eq!(used, f.len());
    assert_eq!(back.passes[0].1.bitset, b"111000111000111".to_vec());
    let mut again = Vec::new();
    back.write(&mut again, MinecraftVersion::V1_18_30).unwrap();
    assert_eq!(again, f);
}

#[test]
fn duplicate_keys_preserved_in_order() {
    let mut mat = rich_material();
    mat.passes[0].1.default_flag_values = vec![
        (b"K".to_vec(), b"first".to_vec()),
        (b"K".to_vec(), b"second".to_vec()),
    ];
    let mut f = Vec::new();
    mat.write(&mut f, MinecraftVersion::V1_20_80).unwrap();
    let (back, _) = CompiledMaterialDefinition::read(&f, MinecraftVersion::V1_20_80).unwrap();
    let flags = &back.passes[0].1.default_flag_values;
    assert_eq!(flags.len(), 2);
    assert_eq!(flags[0].1, b"first".to_vec());
    assert_eq!(flags[1].1, b"second".to_vec());
    let mut again = Vec::new();
    back.write(&mut again, MinecraftVersion::V1_20_80).unwrap();
    assert_eq!(again, f);
}

#[test]
fn oversized_flag_table_refused() {
    let mut variant = Variant { is_supported: false, flags: Vec::new(), shader_codes: Vec::new() };
    for _ in 0..65536 {
        variant.flags.push((Vec::new(), Vec::new()));
    }
    let mut out = Vec::new();
    assert_eq!(
        variant.write(&mut out, MinecraftVersion::V1_20_80).unwrap_err(),
        WriteError::IntOverflow
    );
    variant.flags.pop();
    let mut out2 = Vec::new();
    variant.write(&mut out2, MinecraftVersion::V1_20_80).unwrap();
}

#[test]
fn any_nonzero_byte_reads_as_true() {
    // A presence byte of 2 still means the parent name is there.
    let mut f = Vec::new();
    f.extend_from_slice(&0x0A11DA1Au64.to_le_bytes());
    f.extend_from_slice(&39u32.to_le_bytes());
    f.extend_from_slice(b"RenderDragon.CompiledMaterialDefinition");
    f.extend_from_slice(&22u64.to_le_bytes());
    f.extend_from_slice(&0x4E4F4E45u32.to_le_bytes());
    f.extend_from_slice(&0u32.to_le_bytes()); // name ""
    f.push(2); // parent present, non-canonical byte
    f.extend_from_slice(&1u32.to_le_bytes());
    f.push(b'p');
    f.push(0); // samplers
    f.extend_from_slice(&0u16.to_le_bytes()); // properties
    f.extend_from_slice(&0u16.to_le_bytes()); // passes
    f.extend_from_slice(&0x0A11DA1Au64.to_le_bytes());
    let (mat, used) = CompiledMaterialDefinition::read(&f, MinecraftVersion::V1_20_80).unwrap();
    assert_eq!(used, f.len());
    assert_eq!(mat.parent_name.as_deref(), Some(b"p".as_slice()));
}
