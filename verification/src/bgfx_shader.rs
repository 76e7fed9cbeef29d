use vstd::prelude::*;
use crate::common::{
    sp_u8, sp_u16, sp_u32, sp_byte_array, se_u8, se_u16, se_u32, se_byte_array, is_utf8,
    check_utf8, read_u8, read_u16, read_u32, read_byte_array, write_u8, write_u16, write_u32,
    write_byte_array, write_raw, copy_range, lemma_u8_rt, lemma_u16_rt, lemma_u32_rt,
    lemma_byte_array_rt, lemma_skip_skip, seq_assoc,
};
use crate::error::{ReadError, WriteError};
use crate::schema::MinecraftVersion;
use crate::table::{
    TableEntry, sp_table, se_table, vw_tbl, norm_tbl, wf_tbl, lemma_table_rt, read_table,
    write_table,
};

verus! {

// ---------------------------------------------------------------------
// Short strings: a u8 length prefix, as the embedded format uses
// ---------------------------------------------------------------------

pub open spec fn sp_short_string(s: Seq<u8>) -> Result<(Seq<u8>, Seq<u8>), ReadError> {
    match sp_u8(s) {
        Ok((n, s1)) => if s1.len() < n {
            Err(ReadError::ShortRead { expected: n as usize })
        } else if !is_utf8(s1.take(n as int)) {
            Err(ReadError::BadUtf8)
        } else {
            Ok((s1.take(n as int), s1.skip(n as int)))
        },
        Err(e) => Err(e),
    }
}

pub open spec fn se_short_string(str: Seq<u8>) -> Result<Seq<u8>, WriteError> {
    if str.len() > 255 {
        Err(WriteError::IntOverflow)
    } else {
        Ok(se_u8(str.len() as u8) + str)
    }
}

pub fn read_short_string(data: &Vec<u8>, off: usize) -> (r: Result<(Vec<u8>, usize), ReadError>)
    requires
        off <= data@.len(),
    ensures
        match r {
            Ok((str, off2)) => off <= off2 <= data@.len() && sp_short_string(
                data@.skip(off as int),
            ) == Ok::<_, ReadError>((str@, data@.skip(off2 as int))),
            Err(e) => sp_short_string(data@.skip(off as int)) == Err::<(Seq<u8>, Seq<u8>), _>(e),
        },
{
    match read_u8(data, off) {
        Ok((n, o1)) => {
            let n_us = n as usize;
            if data.len() - o1 < n_us {
                proof {
                    assert(data@.skip(o1 as int).len() < n);
                }
                Err(ReadError::ShortRead { expected: n_us })
            } else {
                let str = copy_range(data, o1, n_us);
                proof {
                    assert(str@ =~= data@.skip(o1 as int).take(n as int));
                    lemma_skip_skip(data@, o1 as int, n as int);
                }
                if check_utf8(&str) {
                    Ok((str, o1 + n_us))
                } else {
                    Err(ReadError::BadUtf8)
                }
            }
        },
        Err(e) => Err(e),
    }
}

pub fn write_short_string(s: &Vec<u8>, out: &mut Vec<u8>) -> (r: Result<(), WriteError>)
    ensures
        match se_short_string(s@) {
            Ok(b) => r == Ok::<(), WriteError>(()) && final(out)@ == old(out)@ + b,
            Err(e) => r == Err::<(), WriteError>(e),
        },
{
    if s.len() > 255 {
        Err(WriteError::IntOverflow)
    } else {
        write_u8(out, s.len() as u8);
        write_raw(out, s);
        proof {
            assert(out@ =~= old(out)@ + (se_u8(s@.len() as u8) + s@));
        }
        Ok(())
    }
}

pub proof fn lemma_short_string_rt(str: Seq<u8>, rest: Seq<u8>)
    requires
        is_utf8(str),
    ensures
        match se_short_string(str) {
            Ok(b) => sp_short_string(b + rest) == Ok::<_, ReadError>((str, rest)),
            Err(_) => true,
        },
{
    if str.len() <= 255 {
        let n = str.len() as u8;
        seq_assoc(se_u8(n), str, rest);
        lemma_u8_rt(n, str + rest);
        assert((str + rest).take(n as int) =~= str);
        assert((str + rest).skip(n as int) =~= rest);
    }
}

// ---------------------------------------------------------------------
// Uniform
// ---------------------------------------------------------------------

/// One uniform of the embedded shader table.
#[derive(Debug)]
pub struct Uniform {
    pub name: Vec<u8>,
    pub utype: u8,
    pub num: u8,
    pub reg_index: u16,
    pub reg_count: u16,
}

#[verifier::ext_equal]
pub ghost struct UniformView {
    pub name: Seq<u8>,
    pub utype: u8,
    pub num: u8,
    pub reg_index: u16,
    pub reg_count: u16,
}

impl View for Uniform {
    type V = UniformView;

    open spec fn view(&self) -> UniformView {
        UniformView {
            name: self.name@,
            utype: self.utype,
            num: self.num,
            reg_index: self.reg_index,
            reg_count: self.reg_count,
        }
    }
}

pub open spec fn sp_uniform(s: Seq<u8>) -> Result<(UniformView, Seq<u8>), ReadError> {
    match sp_short_string(s) {
        Ok((name, s1)) => match sp_u8(s1) {
            Ok((utype, s2)) => match sp_u8(s2) {
                Ok((num, s3)) => match sp_u16(s3) {
                    Ok((ri, s4)) => match sp_u16(s4) {
                        Ok((rc, s5)) => Ok(
                            (
                                UniformView {
                                    name,
                                    utype,
                                    num,
                                    reg_index: ri,
                                    reg_count: rc,
                                },
                                s5,
                            ),
                        ),
                        Err(e) => Err(e),
                    },
                    Err(e) => Err(e),
                },
                Err(e) => Err(e),
            },
            Err(e) => Err(e),
        },
        Err(e) => Err(e),
    }
}

pub open spec fn se_uniform(t: UniformView) -> Result<Seq<u8>, WriteError> {
    match se_short_string(t.name) {
        Ok(nb) => Ok(nb + se_u8(t.utype) + se_u8(t.num) + se_u16(t.reg_index) + se_u16(t.reg_count)),
        Err(e) => Err(e),
    }
}

impl Uniform {
    pub fn read(data: &Vec<u8>, off: usize) -> (r: Result<(Self, usize), ReadError>)
        requires
            off <= data@.len(),
        ensures
            match r {
                Ok((t, off2)) => off <= off2 <= data@.len() && sp_uniform(data@.skip(off as int))
                    == Ok::<_, ReadError>((t@, data@.skip(off2 as int))),
                Err(e) => sp_uniform(data@.skip(off as int)) == Err::<(UniformView, Seq<u8>), _>(
                    e,
                ),
            },
    {
        match read_short_string(data, off) {
            Ok((name, o1)) => match read_u8(data, o1) {
                Ok((utype, o2)) => match read_u8(data, o2) {
                    Ok((num, o3)) => match read_u16(data, o3) {
                        Ok((ri, o4)) => match read_u16(data, o4) {
                            Ok((rc, o5)) => Ok(
                                (
                                    Uniform {
                                        name,
                                        utype,
                                        num,
                                        reg_index: ri,
                                        reg_count: rc,
                                    },
                                    o5,
                                ),
                            ),
                            Err(e) => Err(e),
                        },
                        Err(e) => Err(e),
                    },
                    Err(e) => Err(e),
                },
                Err(e) => Err(e),
            },
            Err(e) => Err(e),
        }
    }

    pub fn write(&self, out: &mut Vec<u8>) -> (r: Result<(), WriteError>)
        ensures
            match se_uniform(self@) {
                Ok(b) => r == Ok::<(), WriteError>(()) && final(out)@ == old(out)@ + b,
                Err(e) => r == Err::<(), WriteError>(e),
            },
    {
        match write_short_string(&self.name, out) {
            Ok(()) => {},
            Err(e) => {
                return Err(e);
            },
        }
        write_u8(out, self.utype);
        write_u8(out, self.num);
        write_u16(out, self.reg_index);
        write_u16(out, self.reg_count);
        proof {
            match se_uniform(self@) {
                Ok(b) => {
                    assert(out@ =~= old(out)@ + b);
                },
                Err(_) => {
                    assert(false);
                },
            }
        }
        Ok(())
    }
}

pub proof fn lemma_uniform_rt(t: UniformView, rest: Seq<u8>)
    requires
        is_utf8(t.name),
    ensures
        match se_uniform(t) {
            Ok(b) => sp_uniform(b + rest) == Ok::<_, ReadError>((t, rest)),
            Err(_) => true,
        },
{
    match se_uniform(t) {
        Err(_) => {},
        Ok(b) => {
            let nb = se_short_string(t.name)->Ok_0;
            let a2 = se_u8(t.utype);
            let a3 = se_u8(t.num);
            let a4 = se_u16(t.reg_index);
            let a5 = se_u16(t.reg_count);
            let r5 = rest;
            let r4 = a5 + r5;
            let r3 = a4 + r4;
            let r2 = a3 + r3;
            let r1 = a2 + r2;
            seq_assoc(nb + a2 + a3 + a4, a5, rest);
            seq_assoc(nb + a2 + a3, a4, r4);
            seq_assoc(nb + a2, a3, r3);
            seq_assoc(nb, a2, r2);
            assert(b + rest == nb + r1);
            lemma_short_string_rt(t.name, r1);
            lemma_u8_rt(t.utype, r2);
            lemma_u8_rt(t.num, r3);
            lemma_u16_rt(t.reg_index, r4);
            lemma_u16_rt(t.reg_count, r5);
        },
    }
}

/// The schema argument is unused: the embedded format does not vary
/// by schema.
impl TableEntry for Uniform {
    type VV = UniformView;

    open spec fn vw(&self) -> UniformView {
        self@
    }

    open spec fn sp_entry(s: Seq<u8>, v: MinecraftVersion) -> Result<
        (UniformView, Seq<u8>),
        ReadError,
    > {
        sp_uniform(s)
    }

    open spec fn se_entry(t: UniformView, v: MinecraftVersion) -> Result<Seq<u8>, WriteError> {
        se_uniform(t)
    }

    open spec fn wf_entry(t: UniformView, v: MinecraftVersion) -> bool {
        is_utf8(t.name)
    }

    open spec fn norm_entry(t: UniformView, v: MinecraftVersion) -> UniformView {
        t
    }

    fn read_entry(data: &Vec<u8>, off: usize, v: MinecraftVersion) -> (r: Result<
        (Self, usize),
        ReadError,
    >) {
        Uniform::read(data, off)
    }

    fn write_entry(&self, v: MinecraftVersion, out: &mut Vec<u8>) -> (r: Result<(), WriteError>) {
        self.write(out)
    }

    proof fn entry_rt(t: UniformView, v: MinecraftVersion, rest: Seq<u8>) {
        lemma_uniform_rt(t, rest);
    }

    proof fn entry_norm(t: UniformView, v: MinecraftVersion) {
    }

    proof fn entry_parse_wf(
        s: Seq<u8>,
        v: MinecraftVersion,
        v2: MinecraftVersion,
        t: UniformView,
        rest: Seq<u8>,
    ) {
    }
}

/// A bare 16-bit word: the entry of the trailer's attribute list.
impl TableEntry for u16 {
    type VV = u16;

    open spec fn vw(&self) -> u16 {
        *self
    }

    open spec fn sp_entry(s: Seq<u8>, v: MinecraftVersion) -> Result<(u16, Seq<u8>), ReadError> {
        sp_u16(s)
    }

    open spec fn se_entry(t: u16, v: MinecraftVersion) -> Result<Seq<u8>, WriteError> {
        Ok(se_u16(t))
    }

    open spec fn wf_entry(t: u16, v: MinecraftVersion) -> bool {
        true
    }

    open spec fn norm_entry(t: u16, v: MinecraftVersion) -> u16 {
        t
    }

    fn read_entry(data: &Vec<u8>, off: usize, v: MinecraftVersion) -> (r: Result<
        (Self, usize),
        ReadError,
    >) {
        read_u16(data, off)
    }

    fn write_entry(&self, v: MinecraftVersion, out: &mut Vec<u8>) -> (r: Result<(), WriteError>) {
        write_u16(out, *self);
        Ok(())
    }

    proof fn entry_rt(t: u16, v: MinecraftVersion, rest: Seq<u8>) {
        lemma_u16_rt(t, rest);
    }

    proof fn entry_norm(t: u16, v: MinecraftVersion) {
    }

    proof fn entry_parse_wf(
        s: Seq<u8>,
        v: MinecraftVersion,
        v2: MinecraftVersion,
        t: u16,
        rest: Seq<u8>,
    ) {
    }
}

// ---------------------------------------------------------------------
// BgfxShader
// ---------------------------------------------------------------------

/// The optional tail attribute table of an embedded shader.
#[derive(Debug)]
pub struct BgfxTrailer {
    pub attributes: Vec<u16>,
    pub struct_size: u16,
}

#[verifier::ext_equal]
pub ghost struct BgfxTrailerView {
    pub attributes: Seq<u16>,
    pub struct_size: u16,
}

impl View for BgfxTrailer {
    type V = BgfxTrailerView;

    open spec fn view(&self) -> BgfxTrailerView {
        BgfxTrailerView { attributes: self.attributes@, struct_size: self.struct_size }
    }
}

/// The embedded per-backend shader blob.
#[derive(Debug)]
pub struct BgfxShader {
    pub magic: u32,
    pub hash: u32,
    pub uniforms: Vec<Uniform>,
    pub code: Vec<u8>,
    pub trailer: Option<BgfxTrailer>,
}

#[verifier::ext_equal]
pub ghost struct BgfxShaderView {
    pub magic: u32,
    pub hash: u32,
    pub uniforms: Seq<UniformView>,
    pub code: Seq<u8>,
    pub trailer: Option<BgfxTrailerView>,
}

impl View for BgfxShader {
    type V = BgfxShaderView;

    open spec fn view(&self) -> BgfxShaderView {
        BgfxShaderView {
            magic: self.magic,
            hash: self.hash,
            uniforms: vw_tbl::<Uniform>(self.uniforms@),
            code: self.code@,
            trailer: match self.trailer {
                Some(tr) => Some(tr@),
                None => None,
            },
        }
    }
}

/// The trailer begins only where bytes remain after the terminator; a
/// zero attribute count means the trailer is absent.
pub open spec fn sp_bgfx_trailer(s: Seq<u8>) -> Result<(Option<BgfxTrailerView>, Seq<u8>), ReadError> {
    if s.len() == 0 {
        Ok((None, s))
    } else {
        match sp_u8(s) {
            Ok((n, s1)) => if n == 0 {
                Ok((None, s1))
            } else {
                match sp_table::<u16>(s1, n as nat, MinecraftVersion::V1_20_80) {
                    Ok((attrs, s2)) => match sp_u16(s2) {
                        Ok((size, s3)) => Ok(
                            (Some(BgfxTrailerView { attributes: attrs, struct_size: size }), s3),
                        ),
                        Err(e) => Err(e),
                    },
                    Err(e) => Err(e),
                }
            },
            Err(e) => Err(e),
        }
    }
}

pub open spec fn sp_bgfx(s: Seq<u8>) -> Result<(BgfxShaderView, Seq<u8>), ReadError> {
    match sp_u32(s) {
        Ok((magic, s1)) => match sp_u32(s1) {
            Ok((hash, s2)) => match sp_u16(s2) {
                Ok((n, s3)) => match sp_table::<Uniform>(s3, n as nat, MinecraftVersion::V1_20_80) {
                    Ok((uniforms, s4)) => match sp_byte_array(s4) {
                        Ok((code, s5)) => match sp_u8(s5) {
                            Ok((_term, s6)) => match sp_bgfx_trailer(s6) {
                                Ok((trailer, s7)) => Ok(
                                    (
                                        BgfxShaderView {
                                            magic,
                                            hash,
                                            uniforms,
                                            code,
                                            trailer,
                                        },
                                        s7,
                                    ),
                                ),
                                Err(e) => Err(e),
                            },
                            Err(e) => Err(e),
                        },
                        Err(e) => Err(e),
                    },
                    Err(e) => Err(e),
                },
                Err(e) => Err(e),
            },
            Err(e) => Err(e),
        },
        Err(e) => Err(e),
    }
}

pub open spec fn se_bgfx_trailer(o: Option<BgfxTrailerView>) -> Result<Seq<u8>, WriteError> {
    match o {
        None => Ok(Seq::empty()),
        Some(tr) => if tr.attributes.len() == 0 {
            Ok(Seq::empty())
        } else if tr.attributes.len() > 255 {
            Err(WriteError::IntOverflow)
        } else {
            match se_table::<u16>(tr.attributes, MinecraftVersion::V1_20_80) {
                Ok(ab) => Ok(se_u8(tr.attributes.len() as u8) + ab + se_u16(tr.struct_size)),
                Err(e) => Err(e),
            }
        },
    }
}

pub open spec fn se_bgfx(t: BgfxShaderView) -> Result<Seq<u8>, WriteError> {
    if t.uniforms.len() > 0xFFFF {
        Err(WriteError::IntOverflow)
    } else {
        match se_table::<Uniform>(t.uniforms, MinecraftVersion::V1_20_80) {
            Ok(ub) => match se_byte_array(t.code) {
                Ok(cb) => match se_bgfx_trailer(t.trailer) {
                    Ok(tb) => Ok(
                        se_u32(t.magic) + se_u32(t.hash) + se_u16(t.uniforms.len() as u16) + ub
                            + cb + se_u8(0) + tb,
                    ),
                    Err(e) => Err(e),
                },
                Err(e) => Err(e),
            },
            Err(e) => Err(e),
        }
    }
}

pub open spec fn wf_bgfx(t: BgfxShaderView) -> bool {
    wf_tbl::<Uniform>(t.uniforms, MinecraftVersion::V1_20_80)
}

/// What a blob parses back to after its own emission: an empty
/// attribute list is indistinguishable from no trailer at all.
pub open spec fn norm_bgfx(t: BgfxShaderView) -> BgfxShaderView {
    BgfxShaderView {
        trailer: match t.trailer {
            Some(tr) => if tr.attributes.len() == 0 {
                None
            } else {
                Some(tr)
            },
            None => None,
        },
        ..t
    }
}

impl BgfxShader {
    #[verifier::rlimit(100)]
    #[verifier::spinoff_prover]
    pub fn read(data: &Vec<u8>, off: usize) -> (r: Result<(Self, usize), ReadError>)
        requires
            off <= data@.len(),
        ensures
            match r {
                Ok((t, off2)) => off <= off2 <= data@.len() && sp_bgfx(data@.skip(off as int))
                    == Ok::<_, ReadError>((t@, data@.skip(off2 as int))),
                Err(e) => sp_bgfx(data@.skip(off as int)) == Err::<(BgfxShaderView, Seq<u8>), _>(
                    e,
                ),
            },
    {
        match read_u32(data, off) {
            Ok((magic, o1)) => match read_u32(data, o1) {
                Ok((hash, o2)) => match read_u16(data, o2) {
                    Ok((n, o3)) => match read_table::<Uniform>(
                        data,
                        o3,
                        n as usize,
                        MinecraftVersion::V1_20_80,
                    ) {
                        Ok((uniforms, o4)) => match read_byte_array(data, o4) {
                            Ok((code, o5)) => match read_u8(data, o5) {
                                Ok((_term, o6)) => {
                                    let trres: Result<
                                        (Option<BgfxTrailer>, usize),
                                        ReadError,
                                    > = if data.len() - o6 == 0 {
                                        Ok((None, o6))
                                    } else {
                                        match read_u8(data, o6) {
                                            Ok((tn, o7)) => if tn == 0 {
                                                Ok((None, o7))
                                            } else {
                                                match read_table::<u16>(
                                                    data,
                                                    o7,
                                                    tn as usize,
                                                    MinecraftVersion::V1_20_80,
                                                ) {
                                                    Ok((attrs, o8)) => {
                                                        proof {
                                                            assert(vw_tbl::<u16>(attrs@)
                                                                =~= attrs@);
                                                        }
                                                        match read_u16(data, o8) {
                                                        Ok((size, o9)) => Ok(
                                                            (
                                                                Some(
                                                                    BgfxTrailer {
                                                                        attributes: attrs,
                                                                        struct_size: size,
                                                                    },
                                                                ),
                                                                o9,
                                                            ),
                                                        ),
                                                        Err(e) => Err(e),
                                                        }
                                                    },
                                                    Err(e) => Err(e),
                                                }
                                            },
                                            Err(e) => Err(e),
                                        }
                                    };
                                    match trres {
                                        Ok((trailer, o9)) => Ok(
                                            (
                                                BgfxShader {
                                                    magic,
                                                    hash,
                                                    uniforms,
                                                    code,
                                                    trailer,
                                                },
                                                o9,
                                            ),
                                        ),
                                        Err(e) => Err(e),
                                    }
                                },
                                Err(e) => Err(e),
                            },
                            Err(e) => Err(e),
                        },
                        Err(e) => Err(e),
                    },
                    Err(e) => Err(e),
                },
                Err(e) => Err(e),
            },
            Err(e) => Err(e),
        }
    }

    #[verifier::rlimit(100)]
    #[verifier::spinoff_prover]
    pub fn write(&self, out: &mut Vec<u8>) -> (r: Result<(), WriteError>)
        ensures
            match se_bgfx(self@) {
                Ok(b) => r == Ok::<(), WriteError>(()) && final(out)@ == old(out)@ + b,
                Err(e) => r == Err::<(), WriteError>(e),
            },
    {
        if self.uniforms.len() > 0xFFFF {
            return Err(WriteError::IntOverflow);
        }
        write_u32(out, self.magic);
        write_u32(out, self.hash);
        write_u16(out, self.uniforms.len() as u16);
        match write_table::<Uniform>(&self.uniforms, MinecraftVersion::V1_20_80, out) {
            Ok(()) => {},
            Err(e) => {
                return Err(e);
            },
        }
        match write_byte_array(&self.code, out) {
            Ok(()) => {},
            Err(e) => {
                return Err(e);
            },
        }
        write_u8(out, 0);
        let ghost base = out@;
        match &self.trailer {
            None => {},
            Some(tr) => {
                if tr.attributes.len() == 0 {
                } else {
                    proof {
                        assert(vw_tbl::<u16>(tr.attributes@) =~= tr.attributes@);
                    }
                    if tr.attributes.len() > 255 {
                        return Err(WriteError::IntOverflow);
                    }
                    write_u8(out, tr.attributes.len() as u8);
                    match write_table::<u16>(&tr.attributes, MinecraftVersion::V1_20_80, out) {
                        Ok(()) => {},
                        Err(e) => {
                            return Err(e);
                        },
                    }
                    write_u16(out, tr.struct_size);
                    proof {
                        let u = se_u8(tr.attributes@.len() as u8);
                        let ab = se_table::<u16>(tr.attributes@, MinecraftVersion::V1_20_80)->Ok_0;
                        let sz = se_u16(tr.struct_size);
                        seq_assoc(base, u, ab);
                        seq_assoc(base, u + ab, sz);
                        assert(out@ == base + (u + ab + sz));
                    }
                }
            },
        }
        proof {
            match se_bgfx(self@) {
                Ok(b) => {
                    let a1 = se_u32(self@.magic);
                    let a2 = se_u32(self@.hash);
                    let a3 = se_u16(self@.uniforms.len() as u16);
                    let ub = se_table::<Uniform>(self@.uniforms, MinecraftVersion::V1_20_80)->Ok_0;
                    let cb = se_byte_array(self@.code)->Ok_0;
                    let a6 = se_u8(0);
                    let tb = se_bgfx_trailer(self@.trailer)->Ok_0;
                    let o0 = old(out)@;
                    seq_assoc(o0, a1, a2);
                    seq_assoc(o0, a1 + a2, a3);
                    seq_assoc(o0, a1 + a2 + a3, ub);
                    seq_assoc(o0, a1 + a2 + a3 + ub, cb);
                    seq_assoc(o0, a1 + a2 + a3 + ub + cb, a6);
                    assert(base == o0 + (a1 + a2 + a3 + ub + cb + a6));
                    seq_assoc(o0, a1 + a2 + a3 + ub + cb + a6, tb);
                    if tb.len() == 0 {
                        assert(a1 + a2 + a3 + ub + cb + a6 + tb =~= a1 + a2 + a3 + ub + cb + a6);
                    }
                    assert(out@ == o0 + b);
                },
                Err(_) => {
                    assert(false);
                },
            }
        }
        Ok(())
    }
}

/// Emitting a well-formed embedded shader and parsing the bytes back
/// yields the shader, with an empty attribute list collapsed to no
/// trailer. The blob is parsed on its own: the trailer begins where
/// the blob's bytes end.
#[verifier::rlimit(100)]
pub proof fn lemma_bgfx_rt(t: BgfxShaderView)
    requires
        wf_bgfx(t),
    ensures
        match se_bgfx(t) {
            Ok(b) => sp_bgfx(b) == Ok::<_, ReadError>((norm_bgfx(t), Seq::<u8>::empty())),
            Err(_) => true,
        },
{
    let v = MinecraftVersion::V1_20_80;
    match se_bgfx(t) {
        Err(_) => {},
        Ok(b) => {
            let a1 = se_u32(t.magic);
            let a2 = se_u32(t.hash);
            let a3 = se_u16(t.uniforms.len() as u16);
            let ub = se_table::<Uniform>(t.uniforms, v)->Ok_0;
            let cb = se_byte_array(t.code)->Ok_0;
            let a6 = se_u8(0);
            let tb = se_bgfx_trailer(t.trailer)->Ok_0;
            let r7 = Seq::<u8>::empty();
            let r6 = tb + r7;
            let r5 = a6 + r6;
            let r4 = cb + r5;
            let r3 = ub + r4;
            let r2 = a3 + r3;
            let r1 = a2 + r2;
            assert(tb + r7 =~= tb);
            seq_assoc(a1 + a2 + a3 + ub + cb + a6, tb, r7);
            assert((a1 + a2 + a3 + ub + cb + a6 + tb) + r7 =~= a1 + a2 + a3 + ub + cb + a6 + tb);
            seq_assoc(a1 + a2 + a3 + ub + cb, a6, r6);
            seq_assoc(a1 + a2 + a3 + ub, cb, r5);
            seq_assoc(a1 + a2 + a3, ub, r4);
            seq_assoc(a1 + a2, a3, r3);
            seq_assoc(a1, a2, r2);
            assert(b == a1 + r1);
            lemma_u32_rt(t.magic, r1);
            lemma_u32_rt(t.hash, r2);
            lemma_u16_rt(t.uniforms.len() as u16, r3);
            lemma_table_rt::<Uniform>(t.uniforms, v, r4);
            assert(norm_tbl::<Uniform>(t.uniforms, v) =~= t.uniforms);
            lemma_byte_array_rt(t.code, r5);
            lemma_u8_rt(0, r6);
            lemma_bgfx_trailer_rt(t.trailer);
            assert(sp_bgfx(b) == Ok::<_, ReadError>((norm_bgfx(t), Seq::<u8>::empty())));
        },
    }
}

#[verifier::rlimit(100)]
proof fn lemma_bgfx_trailer_rt(o: Option<BgfxTrailerView>)
    ensures
        match se_bgfx_trailer(o) {
            Ok(tb) => sp_bgfx_trailer(tb) == Ok::<_, ReadError>(
                (
                    match o {
                        Some(tr) => if tr.attributes.len() == 0 {
                            None
                        } else {
                            Some(tr)
                        },
                        None => None,
                    },
                    Seq::<u8>::empty(),
                ),
            ),
            Err(_) => true,
        },
{
    let v = MinecraftVersion::V1_20_80;
    match o {
        None => {},
        Some(tr) => {
            if tr.attributes.len() == 0 {
            } else if tr.attributes.len() <= 255 {
                let n = tr.attributes.len() as u8;
                match se_table::<u16>(tr.attributes, v) {
                    Err(_) => {},
                    Ok(ab) => {
                        let tb = se_u8(n) + ab + se_u16(tr.struct_size);
                    let r2 = se_u16(tr.struct_size) + Seq::<u8>::empty();
                    assert(r2 =~= se_u16(tr.struct_size));
                    let r1 = ab + r2;
                    seq_assoc(se_u8(n), ab, r2);
                    assert(tb =~= se_u8(n) + ab + r2);
                    lemma_u8_rt(n, r1);
                    lemma_table_rt::<u16>(tr.attributes, v, r2);
                    assert(norm_tbl::<u16>(tr.attributes, v) =~= tr.attributes);
                    lemma_u16_rt(tr.struct_size, Seq::<u8>::empty());
                    assert(tb.len() > 0);
                    assert(sp_u8(tb) == Ok::<_, ReadError>((n, r1)));
                    assert(n != 0);
                    assert(n as nat == tr.attributes.len());
                    assert(sp_table::<u16>(r1, n as nat, v) == Ok::<_, ReadError>(
                        (tr.attributes, r2),
                    ));
                    assert(sp_u16(r2) == Ok::<_, ReadError>(
                        (tr.struct_size, Seq::<u8>::empty()),
                    ));
                    assert(BgfxTrailerView {
                        attributes: norm_tbl::<u16>(tr.attributes, v),
                        struct_size: tr.struct_size,
                    } =~= tr);
                        assert(sp_bgfx_trailer(tb) == Ok::<_, ReadError>(
                            (Some(tr), Seq::<u8>::empty()),
                        ));
                    },
                }
            }
        },
    }
}

} // verus!
