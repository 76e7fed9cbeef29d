use vstd::prelude::*;

verus! {

/// Which enumerated tag failed to decode.
#[derive(Clone, Copy, PartialEq, Eq, Structural, Debug)]
pub enum TagKind {
    Encryption,
    SamplerAccess,
    Precision,
    SamplerType,
    PropertyType,
    BlendMode,
    ShaderStage,
    ShaderCodePlatform,
    ShaderInputType,
    PrecisionConstraint,
    InterpolationConstraint,
    Attribute,
}

/// Why an emit was refused outright.
#[derive(Clone, Copy, PartialEq, Eq, Structural, Debug)]
pub enum CompatReason {
    /// `SamplerCubeArray` has an on-disk value only in the 1.21.20 layout.
    SamplerCubeArrayUnsupported,
    /// A pass must carry a non-empty bitset string on emit.
    EmptyBitset,
}

/// Errors surfaced by the decoders. Decoding never panics: every
/// malformed input maps to one of these, and the contracts of the
/// readers say exactly which.
#[derive(Clone, Copy, PartialEq, Eq, Structural, Debug)]
pub enum ReadError {
    /// The opening or closing frame word is not the expected magic.
    BadMagic,
    /// The banner string after the opening magic is wrong.
    BadBanner,
    /// The stored schema number is 23 but the target schema is not the newest.
    WrongVersion,
    /// A closed enumeration met an integer outside its table.
    InvalidTag { which: TagKind, value: u32 },
    /// The `SMPL` envelope is reserved and never decoded.
    UnsupportedEncryption,
    /// The `KYPR` envelope did not yield a plaintext (bad key or nonce
    /// length, or authentication failure).
    CryptoFailure,
    /// The buffer ended before a field of the given width was complete.
    ShortRead { expected: usize },
    /// A length-prefixed string is not valid UTF-8.
    BadUtf8,
}

/// Errors surfaced by the emitters.
#[derive(Clone, Copy, PartialEq, Eq, Structural, Debug)]
pub enum WriteError {
    /// A length does not fit the width of its on-disk counter.
    IntOverflow,
    /// The value cannot be represented at the requested schema.
    CompatRefusal { why: CompatReason },
}

} // verus!
