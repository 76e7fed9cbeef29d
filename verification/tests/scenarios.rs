use aes_gcm::aead::Aead;
use aes_gcm::{Aes256Gcm, KeyInit};
use mt_updater::error::{CompatReason, ReadError, TagKind, WriteError};
use mt_updater::pass::Pass;
use mt_updater::sampler_definition::{Precision, SamplerAccess, SamplerDefinition, SamplerType};
use mt_updater::schema::MinecraftVersion;
use mt_updater::{CompiledMaterialDefinition, EncryptionVariant};

const BANNER: &str = "RenderDragon.CompiledMaterialDefinition";

fn push_str(buf: &mut Vec<u8>, s: &str) {
    buf.extend_from_slice(&(s.len() as u32).to_le_bytes());
    buf.extend_from_slice(s.as_bytes());
}

fn header(version: u64, enc_tag: u32) -> Vec<u8> {
    let mut f = Vec::new();
    f.extend_from_slice(&0x0A11DA1Au64.to_le_bytes());
    push_str(&mut f, BANNER);
    f.extend_from_slice(&version.to_le_bytes());
    f.extend_from_slice(&enc_tag.to_le_bytes());
    f
}

/// The body of the empty material: empty name, no parent, no tables,
/// closing magic. No override section (schema below 1.21.110).
fn s1_body() -> Vec<u8> {
    let mut b = Vec::new();
    b.extend_from_slice(&0u32.to_le_bytes()); // name ""
    b.push(0); // no parent
    b.push(0); // sampler count (u8)
    b.extend_from_slice(&0u16.to_le_bytes()); // property count
    b.extend_from_slice(&0u16.to_le_bytes()); // pass count
    b.extend_from_slice(&0x0A11DA1Au64.to_le_bytes());
    b
}

fn s1_bytes() -> Vec<u8> {
    let mut f = header(22, 0x4E4F4E45);
    f.extend_from_slice(&s1_body());
    f
}

#[test]
fn s1_empty_root_round_trip() {
    let f = s1_bytes();
    let (mat, used) = CompiledMaterialDefinition::read(&f, MinecraftVersion::V1_20_80).unwrap();
    assert_eq!(used, f.len());
    assert_eq!(mat.version, 22);
    assert_eq!(mat.encryption_variant, EncryptionVariant::NoEncryption);
    assert!(mat.name.is_empty());
    assert!(mat.parent_name.is_none());
    assert!(mat.sampler_definitions.is_empty());
    assert!(mat.property_fields.is_empty());
    assert!(mat.overrides.is_none());
    assert!(mat.passes.is_empty());
    let mut out = Vec::new();
    mat.write(&mut out, MinecraftVersion::V1_20_80).unwrap();
    assert_eq!(out, f);
}

#[test]
fn s2_newest_schema_round_trip() {
    let mut f = header(23, 0x4E4F4E45);
    f.extend_from_slice(&0u32.to_le_bytes()); // name ""
    f.push(1); // parent present
    push_str(&mut f, "base");
    f.push(0); // samplers
    f.extend_from_slice(&0u16.to_le_bytes()); // properties
    f.extend_from_slice(&0u16.to_le_bytes()); // overrides (gated in: schema >= 1.21.110, name not Core/Builtins)
    f.extend_from_slice(&0u16.to_le_bytes()); // passes
    f.extend_from_slice(&0x0A11DA1Au64.to_le_bytes());

    let (mat, used) = CompiledMaterialDefinition::read(&f, MinecraftVersion::V26_0_24).unwrap();
    assert_eq!(used, f.len());
    assert_eq!(mat.version, 23);
    assert_eq!(mat.parent_name.as_deref(), Some(b"base".as_slice()));
    assert_eq!(mat.overrides.as_deref(), Some([].as_slice()));
    let mut out = Vec::new();
    mat.write(&mut out, MinecraftVersion::V26_0_24).unwrap();
    assert_eq!(out, f);
}

#[test]
fn s3_kypr_envelope_decrypts_to_s1() {
    let key = [7u8; 32];
    let nonce = [9u8; 12];
    let cipher = Aes256Gcm::new(&key.into());
    let ciphertext = cipher.encrypt(&nonce.into(), s1_body().as_slice()).unwrap();

    let mut f = header(22, 0x4B595052);
    f.extend_from_slice(&32u32.to_le_bytes());
    f.extend_from_slice(&key);
    f.extend_from_slice(&12u32.to_le_bytes());
    f.extend_from_slice(&nonce);
    f.extend_from_slice(&(ciphertext.len() as u32).to_le_bytes());
    f.extend_from_slice(&ciphertext);

    let (mat, used) = CompiledMaterialDefinition::read(&f, MinecraftVersion::V1_20_80).unwrap();
    assert_eq!(used, f.len());
    assert_eq!(mat.encryption_variant, EncryptionVariant::KeyPair);
    assert!(mat.name.is_empty());
    assert!(mat.passes.is_empty());
    // Re-emitted in the clear, the file is byte-identical to S1.
    let mut out = Vec::new();
    mat.write(&mut out, MinecraftVersion::V1_20_80).unwrap();
    assert_eq!(out, s1_bytes());
}

#[test]
fn kypr_tampered_ciphertext_is_crypto_failure() {
    let key = [7u8; 32];
    let nonce = [9u8; 12];
    let cipher = Aes256Gcm::new(&key.into());
    let mut ciphertext = cipher.encrypt(&nonce.into(), s1_body().as_slice()).unwrap();
    ciphertext[0] ^= 0x5A;

    let mut f = header(22, 0x4B595052);
    f.extend_from_slice(&32u32.to_le_bytes());
    f.extend_from_slice(&key);
    f.extend_from_slice(&12u32.to_le_bytes());
    f.extend_from_slice(&nonce);
    f.extend_from_slice(&(ciphertext.len() as u32).to_le_bytes());
    f.extend_from_slice(&ciphertext);

    let r = CompiledMaterialDefinition::read(&f, MinecraftVersion::V1_20_80);
    assert_eq!(r.unwrap_err(), ReadError::CryptoFailure);
}

#[test]
fn kypr_bad_key_length_is_crypto_failure() {
    let mut f = header(22, 0x4B595052);
    f.extend_from_slice(&4u32.to_le_bytes());
    f.extend_from_slice(&[1, 2, 3, 4]);
    f.extend_from_slice(&12u32.to_le_bytes());
    f.extend_from_slice(&[0u8; 12]);
    f.extend_from_slice(&0u32.to_le_bytes());
    let r = CompiledMaterialDefinition::read(&f, MinecraftVersion::V1_20_80);
    assert_eq!(r.unwrap_err(), ReadError::CryptoFailure);
}

/// A file at 1.21.110 with one sampler: on-disk type byte 5 must come
/// back as the buffer type above the missing cube-array slot.
fn sampler_file_1_21_110(type_byte: u8) -> Vec<u8> {
    let mut f = header(22, 0x4E4F4E45);
    f.extend_from_slice(&0u32.to_le_bytes()); // name ""
    f.push(0); // no parent
    f.push(1); // one sampler
    push_str(&mut f, "s");
    f.extend_from_slice(&1u16.to_le_bytes()); // reg
    f.push(0); // access
    f.push(0); // precision
    f.push(0); // unordered access
    f.push(type_byte);
    f.extend_from_slice(&0u32.to_le_bytes()); // texture format ""
    f.extend_from_slice(&0u32.to_le_bytes()); // opaque u32
    f.push(0); // opaque byte
    f.push(0); // no default texture
    f.push(0); // no custom type info
    f.extend_from_slice(&0u16.to_le_bytes()); // properties
    f.extend_from_slice(&0u16.to_le_bytes()); // overrides
    f.extend_from_slice(&0u16.to_le_bytes()); // passes
    f.extend_from_slice(&0x0A11DA1Au64.to_le_bytes());
    f
}

#[test]
fn s4_sampler_type_shift_on_read() {
    let f5 = sampler_file_1_21_110(5);
    let (mat, _) = CompiledMaterialDefinition::read(&f5, MinecraftVersion::V1_21_110).unwrap();
    assert_eq!(mat.sampler_definitions[0].1.sampler_type, SamplerType::TypeStructuredBuffer);

    let f6 = sampler_file_1_21_110(6);
    let (mat6, _) = CompiledMaterialDefinition::read(&f6, MinecraftVersion::V1_21_110).unwrap();
    assert_eq!(mat6.sampler_definitions[0].1.sampler_type, SamplerType::TypeRawBuffer);
}

#[test]
fn s4_sampler_cube_array_on_1_21_20() {
    // The 1.21.20 sampler layout additionally stores the sampler-state
    // and opaque string options; no override section at this schema.
    let mut f = header(22, 0x4E4F4E45);
    f.extend_from_slice(&0u32.to_le_bytes()); // name ""
    f.push(0); // no parent
    f.push(1); // one sampler
    push_str(&mut f, "s");
    f.extend_from_slice(&1u16.to_le_bytes()); // reg
    f.push(0); // access
    f.push(0); // precision
    f.push(0); // unordered access
    f.push(5); // on-disk type byte
    f.extend_from_slice(&0u32.to_le_bytes()); // texture format ""
    f.extend_from_slice(&0u32.to_le_bytes()); // opaque u32
    f.push(0); // opaque byte
    f.push(0); // no sampler state
    f.push(0); // no default texture
    f.push(0); // no opaque string
    f.push(0); // no custom type info
    f.extend_from_slice(&0u16.to_le_bytes()); // properties
    f.extend_from_slice(&0u16.to_le_bytes()); // passes
    f.extend_from_slice(&0x0A11DA1Au64.to_le_bytes());

    let (mat, used) = CompiledMaterialDefinition::read(&f, MinecraftVersion::V1_21_20).unwrap();
    assert_eq!(used, f.len());
    assert_eq!(mat.sampler_definitions[0].1.sampler_type, SamplerType::TypeSamplerCubeArray);
}

/// Valid at exactly 1.18.30: the pass region starts with a byte that
/// newer schemas read as an oversized string length.
fn s5_oldest_only_file() -> Vec<u8> {
    let mut f = header(22, 0x4E4F4E45);
    push_str(&mut f, "m");
    f.push(0); // no parent
    f.push(0); // samplers
    f.extend_from_slice(&0u16.to_le_bytes()); // properties
    f.extend_from_slice(&1u16.to_le_bytes()); // one pass
    push_str(&mut f, "p");
    // Pass at 1.18.30: the peeked word's low byte is 0xFF, so the
    // bitset is absent and one byte is skipped.
    f.push(0xFF);
    f.extend_from_slice(&0u32.to_le_bytes()); // fallback ""
    f.push(0); // no blend mode
    f.extend_from_slice(&0u16.to_le_bytes()); // flag values
    f.extend_from_slice(&0u16.to_le_bytes()); // variants
    f.extend_from_slice(&0x0A11DA1Au64.to_le_bytes());
    f
}

#[test]
fn s5_auto_detect_falls_back_to_oldest() {
    let f = s5_oldest_only_file();
    assert!(CompiledMaterialDefinition::read(&f, MinecraftVersion::V26_0_24).is_err());
    assert!(CompiledMaterialDefinition::read(&f, MinecraftVersion::V1_21_110).is_err());
    assert!(CompiledMaterialDefinition::read(&f, MinecraftVersion::V1_21_20).is_err());
    assert!(CompiledMaterialDefinition::read(&f, MinecraftVersion::V1_20_80).is_err());
    assert!(CompiledMaterialDefinition::read(&f, MinecraftVersion::V1_19_60).is_err());
    let (mat, used) = CompiledMaterialDefinition::read(&f, MinecraftVersion::V1_18_30).unwrap();
    assert_eq!(used, f.len());
    assert!(mat.passes[0].1.bitset.is_empty());
    assert_eq!(mt_updater::detect_version(&f), Some(MinecraftVersion::V1_18_30));
}

fn cube_array_material() -> CompiledMaterialDefinition {
    CompiledMaterialDefinition {
        version: 22,
        encryption_variant: EncryptionVariant::NoEncryption,
        name: Vec::new(),
        parent_name: None,
        sampler_definitions: vec![(
            b"s".to_vec(),
            SamplerDefinition {
                reg: 0,
                access: SamplerAccess::Read,
                precision: Precision::Low,
                allow_unordered_access: 0,
                sampler_type: SamplerType::TypeSamplerCubeArray,
                texture_format: Vec::new(),
                unknown_int: 0,
                unknown_byte: 0,
                sampler_state: None,
                default_texture: None,
                unknown_string: None,
                custom_type_info: None,
            },
        )],
        property_fields: Vec::new(),
        overrides: None,
        passes: Vec::new(),
    }
}

#[test]
fn s6_cube_array_refused_below_1_21_20() {
    let mat = cube_array_material();
    let mut out = Vec::new();
    let r = mat.write(&mut out, MinecraftVersion::V1_19_60);
    assert_eq!(
        r.unwrap_err(),
        WriteError::CompatRefusal { why: CompatReason::SamplerCubeArrayUnsupported }
    );
}

#[test]
fn cube_array_accepted_at_1_21_20() {
    let mat = cube_array_material();
    let mut out = Vec::new();
    mat.write(&mut out, MinecraftVersion::V1_21_20).unwrap();
    let (back, used) = CompiledMaterialDefinition::read(&out, MinecraftVersion::V1_21_20).unwrap();
    assert_eq!(used, out.len());
    assert_eq!(back.sampler_definitions[0].1.sampler_type, SamplerType::TypeSamplerCubeArray);
}

#[test]
fn empty_bitset_refused_on_emit() {
    let pass = Pass {
        bitset: Vec::new(),
        fallback: b"f".to_vec(),
        default_blendmode: None,
        default_flag_values: Vec::new(),
        variants: Vec::new(),
    };
    let mut out = Vec::new();
    let r = pass.write(&mut out, MinecraftVersion::V1_20_80);
    assert_eq!(r.unwrap_err(), WriteError::CompatRefusal { why: CompatReason::EmptyBitset });
    let mut out2 = Vec::new();
    let r2 = pass.write(&mut out2, MinecraftVersion::V1_18_30);
    assert_eq!(r2.unwrap_err(), WriteError::CompatRefusal { why: CompatReason::EmptyBitset });
}

#[test]
fn bad_magic_and_banner() {
    let mut f = s1_bytes();
    f[0] ^= 1;
    assert_eq!(
        CompiledMaterialDefinition::read(&f, MinecraftVersion::V1_20_80).unwrap_err(),
        ReadError::BadMagic
    );
    let mut g = s1_bytes();
    g[12] = b'S'; // first banner byte ('R'), after 8 magic + 4 length bytes
    assert_eq!(
        CompiledMaterialDefinition::read(&g, MinecraftVersion::V1_20_80).unwrap_err(),
        ReadError::BadBanner
    );
    // Dropping the last byte breaks the closing magic.
    let mut h = s1_bytes();
    h.pop();
    assert!(CompiledMaterialDefinition::read(&h, MinecraftVersion::V1_20_80).is_err());
}

#[test]
fn version_23_refused_below_newest() {
    let mut f = header(23, 0x4E4F4E45);
    f.extend_from_slice(&s1_body());
    assert_eq!(
        CompiledMaterialDefinition::read(&f, MinecraftVersion::V1_20_80).unwrap_err(),
        ReadError::WrongVersion
    );
}

#[test]
fn smpl_envelope_unsupported() {
    let mut f = header(22, 0x534D504C);
    f.extend_from_slice(&s1_body());
    assert_eq!(
        CompiledMaterialDefinition::read(&f, MinecraftVersion::V1_20_80).unwrap_err(),
        ReadError::UnsupportedEncryption
    );
}

#[test]
fn unknown_encryption_tag_is_invalid() {
    let mut f = header(22, 0xDEADBEEF);
    f.extend_from_slice(&s1_body());
    assert_eq!(
        CompiledMaterialDefinition::read(&f, MinecraftVersion::V1_20_80).unwrap_err(),
        ReadError::InvalidTag { which: TagKind::Encryption, value: 0xDEADBEEF }
    );
}

#[test]
fn truncated_file_is_short_read() {
    let f = s1_bytes();
    let g = f[..6].to_vec();
    assert!(matches!(
        CompiledMaterialDefinition::read(&g, MinecraftVersion::V1_20_80).unwrap_err(),
        ReadError::ShortRead { .. }
    ));
}

#[test]
fn invalid_utf8_name_rejected() {
    let mut f = header(22, 0x4E4F4E45);
    f.extend_from_slice(&1u32.to_le_bytes());
    f.push(0xFF); // not UTF-8
    f.push(0);
    f.push(0);
    f.extend_from_slice(&0u16.to_le_bytes());
    f.extend_from_slice(&0u16.to_le_bytes());
    f.extend_from_slice(&0x0A11DA1Au64.to_le_bytes());
    assert_eq!(
        CompiledMaterialDefinition::read(&f, MinecraftVersion::V1_20_80).unwrap_err(),
        ReadError::BadUtf8
    );
}

#[test]
fn wide_register_refused_on_oldest_schema() {
    let mut mat = cube_array_material();
    mat.sampler_definitions[0].1.sampler_type = SamplerType::Type2D;
    mat.sampler_definitions[0].1.reg = 300;
    let mut out = Vec::new();
    assert_eq!(
        mat.write(&mut out, MinecraftVersion::V1_18_30).unwrap_err(),
        WriteError::IntOverflow
    );
    // Narrow registers pass, and the byte is reconstituted on read.
    mat.sampler_definitions[0].1.reg = 200;
    mat.sampler_definitions[0].1.unknown_byte = 77;
    let mut out2 = Vec::new();
    mat.write(&mut out2, MinecraftVersion::V1_18_30).unwrap();
    let (back, _) = CompiledMaterialDefinition::read(&out2, MinecraftVersion::V1_18_30).unwrap();
    assert_eq!(back.sampler_definitions[0].1.reg, 200);
    assert_eq!(back.sampler_definitions[0].1.unknown_byte, 200);
}

#[test]
fn update_file_migrates_to_target() {
    let f = s1_bytes();
    let out = mt_updater::update_file(&f, MinecraftVersion::V1_21_20).unwrap();
    let (mat, used) = CompiledMaterialDefinition::read(&out, MinecraftVersion::V1_21_20).unwrap();
    assert_eq!(used, out.len());
    assert_eq!(mat.version, 22);
    assert!(mat.overrides.is_none()); // 1.21.20 has no override section
    // A second emission at the same target is byte-identical.
    let mut again = Vec::new();
    mat.write(&mut again, MinecraftVersion::V1_21_20).unwrap();
    assert_eq!(again, out);
    // Garbage is rejected by every schema.
    assert!(mt_updater::update_file(&vec![1, 2, 3], MinecraftVersion::V1_21_20).is_none());
}

#[test]
fn override_gating_follows_schema_and_name() {
    // Same tree emitted at 1.21.110 gains an override section with a
    // zero count; at 1.20.80 it has none.
    let f = s1_bytes();
    let (mat, _) = CompiledMaterialDefinition::read(&f, MinecraftVersion::V1_20_80).unwrap();
    let mut at_new = Vec::new();
    mat.write(&mut at_new, MinecraftVersion::V1_21_110).unwrap();
    let (back, _) = CompiledMaterialDefinition::read(&at_new, MinecraftVersion::V1_21_110).unwrap();
    assert_eq!(back.overrides.as_deref(), Some([].as_slice()));

    // Core/Builtins never carries the section, even at new schemas.
    let mut core = CompiledMaterialDefinition::read(&f, MinecraftVersion::V1_20_80).unwrap().0;
    core.name = b"Core/Builtins".to_vec();
    let mut at_core = Vec::new();
    core.write(&mut at_core, MinecraftVersion::V1_21_110).unwrap();
    let (back2, _) =
        CompiledMaterialDefinition::read(&at_core, MinecraftVersion::V1_21_110).unwrap();
    assert!(back2.overrides.is_none());
}
