use vstd::prelude::*;
use crate::common::{
    sp_u16, sp_u32, sp_bool, sp_string, se_u16, se_u32, se_bool, se_string, is_utf8, read_u16,
    read_u32, read_bool, read_string, write_u16, write_u32, write_bool, write_string, copy_range,
    lemma_u16_rt, lemma_u32_rt, lemma_bool_rt, lemma_string_rt, lemma_string_utf8,
    lemma_skip_skip,
};
use crate::error::{ReadError, WriteError, TagKind};
use crate::schema::MinecraftVersion;
use crate::table::TableEntry;

verus! {

/// The type tag of a uniform property slot.
#[derive(Clone, Copy, PartialEq, Eq, Structural, Debug)]
pub enum PropertyType {
    Vec4,
    Mat3,
    Mat4,
    External,
}

impl PropertyType {
    pub open spec fn to_u16_spec(&self) -> u16 {
        match self {
            PropertyType::Vec4 => 2,
            PropertyType::Mat3 => 3,
            PropertyType::Mat4 => 4,
            PropertyType::External => 5,
        }
    }

    #[verifier::when_used_as_spec(to_u16_spec)]
    pub fn to_u16(&self) -> (r: u16)
        ensures
            r == self.to_u16_spec(),
    {
        match self {
            PropertyType::Vec4 => 2,
            PropertyType::Mat3 => 3,
            PropertyType::Mat4 => 4,
            PropertyType::External => 5,
        }
    }

    /// Width of the has-data payload this tag mandates.
    pub open spec fn payload_width(self) -> int {
        match self {
            PropertyType::Vec4 => 16,
            PropertyType::Mat3 => 36,
            PropertyType::Mat4 => 64,
            PropertyType::External => 0,
        }
    }
}

pub open spec fn sp_property_type(s: Seq<u8>) -> Result<(PropertyType, Seq<u8>), ReadError> {
    match sp_u16(s) {
        Ok((tag, s1)) => if tag == 2 {
            Ok((PropertyType::Vec4, s1))
        } else if tag == 3 {
            Ok((PropertyType::Mat3, s1))
        } else if tag == 4 {
            Ok((PropertyType::Mat4, s1))
        } else if tag == 5 {
            Ok((PropertyType::External, s1))
        } else {
            Err(ReadError::InvalidTag { which: TagKind::PropertyType, value: tag as u32 })
        },
        Err(e) => Err(e),
    }
}

pub fn read_property_type(data: &Vec<u8>, off: usize) -> (r: Result<(PropertyType, usize), ReadError>)
    requires
        off <= data@.len(),
    ensures
        match r {
            Ok((t, off2)) => off <= off2 <= data@.len() && sp_property_type(data@.skip(off as int))
                == Ok::<_, ReadError>((t, data@.skip(off2 as int))),
            Err(e) => sp_property_type(data@.skip(off as int)) == Err::<
                (PropertyType, Seq<u8>),
                _,
            >(e),
        },
{
    match read_u16(data, off) {
        Ok((tag, o1)) => if tag == 2 {
            Ok((PropertyType::Vec4, o1))
        } else if tag == 3 {
            Ok((PropertyType::Mat3, o1))
        } else if tag == 4 {
            Ok((PropertyType::Mat4, o1))
        } else if tag == 5 {
            Ok((PropertyType::External, o1))
        } else {
            Err(ReadError::InvalidTag { which: TagKind::PropertyType, value: tag as u32 })
        },
        Err(e) => Err(e),
    }
}

pub proof fn lemma_property_type_rt(t: PropertyType, rest: Seq<u8>)
    ensures
        sp_property_type(se_u16(t.to_u16_spec()) + rest) == Ok::<_, ReadError>((t, rest)),
{
    lemma_u16_rt(t.to_u16_spec(), rest);
}

/// One uniform property slot: a type tag, an array count, and an
/// optional fixed-width raw payload.
#[derive(Debug)]
pub struct PropertyField {
    pub field_type: PropertyType,
    pub num: u32,
    pub vector_data: Option<Vec<u8>>,
    pub matrix_data: Option<Vec<u8>>,
}

#[verifier::ext_equal]
pub ghost struct PropertyFieldView {
    pub field_type: PropertyType,
    pub num: u32,
    pub vector_data: Option<Seq<u8>>,
    pub matrix_data: Option<Seq<u8>>,
}

impl View for PropertyField {
    type V = PropertyFieldView;

    open spec fn view(&self) -> PropertyFieldView {
        PropertyFieldView {
            field_type: self.field_type,
            num: self.num,
            vector_data: match self.vector_data {
                Some(d) => Some(d@),
                None => None,
            },
            matrix_data: match self.matrix_data {
                Some(d) => Some(d@),
                None => None,
            },
        }
    }
}

/// The wire form: tag, then the count unless the type is `External`,
/// then a has-data byte, then the fixed window when it is present.
/// `External` carries neither count nor window.
pub open spec fn sp_property(s: Seq<u8>) -> Result<(PropertyFieldView, Seq<u8>), ReadError> {
    match sp_property_type(s) {
        Ok((ft, s1)) => {
            let numres = if ft == PropertyType::External {
                Ok((0u32, s1))
            } else {
                sp_u32(s1)
            };
            match numres {
                Ok((num, s2)) => match sp_bool(s2) {
                    Ok((has_data, s3)) => if ft == PropertyType::External || !has_data {
                        Ok(
                            (
                                PropertyFieldView {
                                    field_type: ft,
                                    num,
                                    vector_data: None,
                                    matrix_data: None,
                                },
                                s3,
                            ),
                        )
                    } else {
                        let w = ft.payload_width();
                        if s3.len() < w {
                            Err(ReadError::ShortRead { expected: w as usize })
                        } else if ft == PropertyType::Vec4 {
                            Ok(
                                (
                                    PropertyFieldView {
                                        field_type: ft,
                                        num,
                                        vector_data: Some(s3.take(w)),
                                        matrix_data: None,
                                    },
                                    s3.skip(w),
                                ),
                            )
                        } else {
                            Ok(
                                (
                                    PropertyFieldView {
                                        field_type: ft,
                                        num,
                                        vector_data: None,
                                        matrix_data: Some(s3.take(w)),
                                    },
                                    s3.skip(w),
                                ),
                            )
                        }
                    },
                    Err(e) => Err(e),
                },
                Err(e) => Err(e),
            }
        },
        Err(e) => Err(e),
    }
}

/// What the emitter writes for a slot. `External` always writes a
/// zero has-data byte and no count.
pub open spec fn se_property(t: PropertyFieldView) -> Seq<u8> {
    se_u16(t.field_type.to_u16_spec()) + (match t.field_type {
        PropertyType::External => se_bool(false),
        PropertyType::Vec4 => se_u32(t.num) + (match t.vector_data {
            Some(d) => se_bool(true) + d,
            None => se_bool(false),
        }),
        _ => se_u32(t.num) + (match t.matrix_data {
            Some(d) => se_bool(true) + d,
            None => se_bool(false),
        }),
    })
}

/// A slot's payload, when present, has the width its tag mandates.
pub open spec fn wf_property(t: PropertyFieldView) -> bool {
    &&& match t.vector_data {
        Some(d) => t.field_type == PropertyType::Vec4 && d.len() == 16,
        None => true,
    }
    &&& match t.matrix_data {
        Some(d) => (t.field_type == PropertyType::Mat3 && d.len() == 36) || (t.field_type
            == PropertyType::Mat4 && d.len() == 64),
        None => true,
    }
}

/// The slot as it comes back after an emit-parse round trip: fields
/// the wire does not store are cleared.
pub open spec fn norm_property(t: PropertyFieldView) -> PropertyFieldView {
    match t.field_type {
        PropertyType::Vec4 => PropertyFieldView { matrix_data: None, ..t },
        PropertyType::External => PropertyFieldView {
            num: 0,
            vector_data: None,
            matrix_data: None,
            ..t
        },
        _ => PropertyFieldView { vector_data: None, ..t },
    }
}

impl PropertyField {
    pub fn read(data: &Vec<u8>, off: usize) -> (r: Result<(Self, usize), ReadError>)
        requires
            off <= data@.len(),
        ensures
            match r {
                Ok((t, off2)) => off <= off2 <= data@.len() && sp_property(data@.skip(off as int))
                    == Ok::<_, ReadError>((t@, data@.skip(off2 as int))),
                Err(e) => sp_property(data@.skip(off as int)) == Err::<
                    (PropertyFieldView, Seq<u8>),
                    _,
                >(e),
            },
    {
        match read_property_type(data, off) {
            Ok((ft, o1)) => {
                let numres = if ft == PropertyType::External {
                    Ok((0u32, o1))
                } else {
                    read_u32(data, o1)
                };
                match numres {
                    Ok((num, o2)) => match read_bool(data, o2) {
                        Ok((has_data, o3)) => if ft == PropertyType::External || !has_data {
                            Ok(
                                (
                                    PropertyField {
                                        field_type: ft,
                                        num,
                                        vector_data: None,
                                        matrix_data: None,
                                    },
                                    o3,
                                ),
                            )
                        } else {
                            let w: usize = match ft {
                                PropertyType::Vec4 => 16,
                                PropertyType::Mat3 => 36,
                                _ => 64,
                            };
                            if data.len() - o3 < w {
                                Err(ReadError::ShortRead { expected: w })
                            } else {
                                let d = copy_range(data, o3, w);
                                proof {
                                    assert(d@ =~= data@.skip(o3 as int).take(w as int));
                                    lemma_skip_skip(data@, o3 as int, w as int);
                                }
                                if ft == PropertyType::Vec4 {
                                    Ok(
                                        (
                                            PropertyField {
                                                field_type: ft,
                                                num,
                                                vector_data: Some(d),
                                                matrix_data: None,
                                            },
                                            o3 + w,
                                        ),
                                    )
                                } else {
                                    Ok(
                                        (
                                            PropertyField {
                                                field_type: ft,
                                                num,
                                                vector_data: None,
                                                matrix_data: Some(d),
                                            },
                                            o3 + w,
                                        ),
                                    )
                                }
                            }
                        },
                        Err(e) => Err(e),
                    },
                    Err(e) => Err(e),
                }
            },
            Err(e) => Err(e),
        }
    }

    pub fn write(&self, out: &mut Vec<u8>) -> (r: Result<(), WriteError>)
        ensures
            r == Ok::<(), WriteError>(()),
            final(out)@ == old(out)@ + se_property(self@),
    {
        write_u16(out, self.field_type.to_u16());
        match self.field_type {
            PropertyType::External => {
                write_bool(out, false);
            },
            PropertyType::Vec4 => {
                write_u32(out, self.num);
                match &self.vector_data {
                    Some(d) => {
                        write_bool(out, true);
                        crate::common::write_raw(out, d);
                    },
                    None => {
                        write_bool(out, false);
                    },
                }
            },
            _ => {
                write_u32(out, self.num);
                match &self.matrix_data {
                    Some(d) => {
                        write_bool(out, true);
                        crate::common::write_raw(out, d);
                    },
                    None => {
                        write_bool(out, false);
                    },
                }
            },
        }
        proof {
            assert(out@ =~= old(out)@ + se_property(self@));
        }
        Ok(())
    }
}

/// Emitting a well-formed slot and parsing the bytes back yields the
/// slot with its unstored fields cleared.
pub proof fn lemma_property_rt(t: PropertyFieldView, rest: Seq<u8>)
    requires
        wf_property(t),
    ensures
        sp_property(se_property(t) + rest) == Ok::<_, ReadError>((norm_property(t), rest)),
{
    let tag = t.field_type.to_u16_spec();
    match t.field_type {
        PropertyType::External => {
            assert(se_property(t) + rest =~= se_u16(tag) + (se_bool(false) + rest));
            lemma_property_type_rt(t.field_type, se_bool(false) + rest);
            lemma_bool_rt(false, rest);
        },
        PropertyType::Vec4 => {
            match t.vector_data {
                Some(d) => {
                    assert(se_property(t) + rest =~= se_u16(tag) + (se_u32(t.num) + (se_bool(true)
                        + (d + rest))));
                    lemma_property_type_rt(
                        t.field_type,
                        se_u32(t.num) + (se_bool(true) + (d + rest)),
                    );
                    lemma_u32_rt(t.num, se_bool(true) + (d + rest));
                    lemma_bool_rt(true, d + rest);
                    assert((d + rest).take(16) =~= d);
                    assert((d + rest).skip(16) =~= rest);
                },
                None => {
                    assert(se_property(t) + rest =~= se_u16(tag) + (se_u32(t.num) + (se_bool(false)
                        + rest)));
                    lemma_property_type_rt(t.field_type, se_u32(t.num) + (se_bool(false) + rest));
                    lemma_u32_rt(t.num, se_bool(false) + rest);
                    lemma_bool_rt(false, rest);
                },
            }
        },
        _ => {
            let w = t.field_type.payload_width();
            match t.matrix_data {
                Some(d) => {
                    assert(se_property(t) + rest =~= se_u16(tag) + (se_u32(t.num) + (se_bool(true)
                        + (d + rest))));
                    lemma_property_type_rt(
                        t.field_type,
                        se_u32(t.num) + (se_bool(true) + (d + rest)),
                    );
                    lemma_u32_rt(t.num, se_bool(true) + (d + rest));
                    lemma_bool_rt(true, d + rest);
                    assert((d + rest).take(w) =~= d);
                    assert((d + rest).skip(w) =~= rest);
                },
                None => {
                    assert(se_property(t) + rest =~= se_u16(tag) + (se_u32(t.num) + (se_bool(false)
                        + rest)));
                    lemma_property_type_rt(t.field_type, se_u32(t.num) + (se_bool(false) + rest));
                    lemma_u32_rt(t.num, se_bool(false) + rest);
                    lemma_bool_rt(false, rest);
                },
            }
        },
    }
}

/// Has-data payloads are exactly 16, 36 or 64 bytes for Vec4, Mat3 and
/// Mat4, and an `External` slot stores neither count, payload nor a
/// set has-data byte.
pub proof fn lemma_property_sizing(s: Seq<u8>, t: PropertyFieldView, rest: Seq<u8>)
    requires
        sp_property(s) == Ok::<_, ReadError>((t, rest)),
    ensures
        match t.vector_data {
            Some(d) => t.field_type == PropertyType::Vec4 && d.len() == 16,
            None => true,
        },
        match t.matrix_data {
            Some(d) => (t.field_type == PropertyType::Mat3 && d.len() == 36) || (t.field_type
                == PropertyType::Mat4 && d.len() == 64),
            None => true,
        },
        t.field_type == PropertyType::External ==> t.num == 0 && t.vector_data is None
            && t.matrix_data is None,
        t.field_type == PropertyType::External ==> se_property(t) == se_u16(5) + se_bool(false),
{
}

impl TableEntry for (Vec<u8>, PropertyField) {
    type VV = (Seq<u8>, PropertyFieldView);

    open spec fn vw(&self) -> (Seq<u8>, PropertyFieldView) {
        (self.0@, self.1@)
    }

    open spec fn sp_entry(s: Seq<u8>, v: MinecraftVersion) -> Result<
        ((Seq<u8>, PropertyFieldView), Seq<u8>),
        ReadError,
    > {
        match sp_string(s) {
            Ok((name, s1)) => match sp_property(s1) {
                Ok((p, s2)) => Ok(((name, p), s2)),
                Err(e) => Err(e),
            },
            Err(e) => Err(e),
        }
    }

    open spec fn se_entry(t: (Seq<u8>, PropertyFieldView), v: MinecraftVersion) -> Result<
        Seq<u8>,
        WriteError,
    > {
        match se_string(t.0) {
            Ok(nb) => Ok(nb + se_property(t.1)),
            Err(e) => Err(e),
        }
    }

    open spec fn wf_entry(t: (Seq<u8>, PropertyFieldView), v: MinecraftVersion) -> bool {
        is_utf8(t.0) && wf_property(t.1)
    }

    open spec fn norm_entry(t: (Seq<u8>, PropertyFieldView), v: MinecraftVersion) -> (
        Seq<u8>,
        PropertyFieldView,
    ) {
        (t.0, norm_property(t.1))
    }

    fn read_entry(data: &Vec<u8>, off: usize, v: MinecraftVersion) -> (r: Result<
        (Self, usize),
        ReadError,
    >) {
        match read_string(data, off) {
            Ok((name, o1)) => match PropertyField::read(data, o1) {
                Ok((p, o2)) => Ok(((name, p), o2)),
                Err(e) => Err(e),
            },
            Err(e) => Err(e),
        }
    }

    fn write_entry(&self, v: MinecraftVersion, out: &mut Vec<u8>) -> (r: Result<(), WriteError>) {
        match write_string(&self.0, out) {
            Ok(()) => {
                let r = self.1.write(out);
                proof {
                    match se_string(self.0@) {
                        Ok(nb) => {
                            assert(out@ =~= old(out)@ + (nb + se_property(self.1@)));
                        },
                        Err(_) => {},
                    }
                }
                r
            },
            Err(e) => Err(e),
        }
    }

    proof fn entry_rt(t: (Seq<u8>, PropertyFieldView), v: MinecraftVersion, rest: Seq<u8>) {
        match se_string(t.0) {
            Ok(nb) => {
                let pb = se_property(t.1);
                assert((nb + pb) + rest =~= nb + (pb + rest));
                lemma_string_rt(t.0, pb + rest);
                lemma_property_rt(t.1, rest);
            },
            Err(_) => {},
        }
    }

    proof fn entry_norm(t: (Seq<u8>, PropertyFieldView), v: MinecraftVersion) {
        assert(se_property(norm_property(t.1)) == se_property(t.1));
    }

    proof fn entry_parse_wf(
        s: Seq<u8>,
        v: MinecraftVersion,
        v2: MinecraftVersion,
        t: (Seq<u8>, PropertyFieldView),
        rest: Seq<u8>,
    ) {
        match sp_string(s) {
            Err(_) => {
                assert(false);
            },
            Ok((name, s1)) => {
                lemma_string_utf8(s, name, s1);
                match sp_property(s1) {
                    Err(_) => {
                        assert(false);
                    },
                    Ok((p, s2)) => {
                        lemma_property_sizing(s1, p, s2);
                    },
                }
            },
        }
    }
}

} // verus!
