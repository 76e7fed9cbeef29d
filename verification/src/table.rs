use vstd::prelude::*;
use crate::common::{
    sp_string, se_string, is_utf8, read_string, write_string, lemma_string_rt, seq_assoc,
};
use crate::error::ReadError;
use crate::error::WriteError;
use crate::schema::MinecraftVersion;

verus! {

/// One entry of a count-prefixed table on the wire. The count itself
/// is read and written by the owner of the table, since its width
/// varies.
pub trait TableEntry: Sized {
    /// The mathematical model of one entry.
    type VV;

    spec fn vw(&self) -> Self::VV;

    spec fn sp_entry(s: Seq<u8>, v: MinecraftVersion) -> Result<(Self::VV, Seq<u8>), ReadError>;

    spec fn se_entry(t: Self::VV, v: MinecraftVersion) -> Result<Seq<u8>, WriteError>;

    /// What the round trip needs of an in-memory entry beyond what
    /// `se_entry` itself checks: strings are UTF-8, raw payloads have
    /// their mandated widths.
    spec fn wf_entry(t: Self::VV, v: MinecraftVersion) -> bool;

    /// The entry as it comes back from parsing its own emission at
    /// schema `v`: fields that the schema does not store are replaced
    /// by what the parser reconstitutes.
    spec fn norm_entry(t: Self::VV, v: MinecraftVersion) -> Self::VV;

    fn read_entry(data: &Vec<u8>, off: usize, v: MinecraftVersion) -> (r: Result<
        (Self, usize),
        ReadError,
    >)
        requires
            off <= data@.len(),
        ensures
            match r {
                Ok((t, off2)) => off <= off2 <= data@.len() && Self::sp_entry(
                    data@.skip(off as int),
                    v,
                ) == Ok::<_, ReadError>((t.vw(), data@.skip(off2 as int))),
                Err(e) => Self::sp_entry(data@.skip(off as int), v) == Err::<
                    (Self::VV, Seq<u8>),
                    _,
                >(e),
            },
    ;

    fn write_entry(&self, v: MinecraftVersion, out: &mut Vec<u8>) -> (r: Result<(), WriteError>)
        ensures
            match Self::se_entry(self.vw(), v) {
                Ok(b) => r == Ok::<(), WriteError>(()) && final(out)@ == old(out)@ + b,
                Err(e) => r == Err::<(), WriteError>(e),
            },
    ;

    proof fn entry_rt(t: Self::VV, v: MinecraftVersion, rest: Seq<u8>)
        requires
            Self::wf_entry(t, v),
        ensures
            match Self::se_entry(t, v) {
                Ok(b) => Self::sp_entry(b + rest, v) == Ok::<_, ReadError>(
                    (Self::norm_entry(t, v), rest),
                ),
                Err(_) => true,
            },
    ;

    proof fn entry_norm(t: Self::VV, v: MinecraftVersion)
        ensures
            Self::se_entry(Self::norm_entry(t, v), v) == Self::se_entry(t, v),
            Self::wf_entry(t, v) ==> Self::wf_entry(Self::norm_entry(t, v), v),
    ;

    /// An entry the parser accepted at schema `v` is well formed for
    /// every schema other than the oldest, whose extra bitset-marker
    /// condition a parse does not establish.
    proof fn entry_parse_wf(s: Seq<u8>, v: MinecraftVersion, v2: MinecraftVersion, t: Self::VV, rest: Seq<u8>)
        requires
            Self::sp_entry(s, v) == Ok::<(Self::VV, Seq<u8>), ReadError>((t, rest)),
            v2 != MinecraftVersion::V1_18_30,
        ensures
            Self::wf_entry(t, v2),
    ;
}

/// A parsed table consists of well-formed entries, for every schema
/// other than the oldest.
pub proof fn lemma_table_parse_wf<T: TableEntry>(
    s: Seq<u8>,
    n: nat,
    v: MinecraftVersion,
    v2: MinecraftVersion,
    items: Seq<T::VV>,
    rest: Seq<u8>,
)
    requires
        sp_table::<T>(s, n, v) == Ok::<(Seq<T::VV>, Seq<u8>), ReadError>((items, rest)),
        v2 != MinecraftVersion::V1_18_30,
    ensures
        wf_tbl::<T>(items, v2),
    decreases n,
{
    if n == 0 {
        assert(items =~= Seq::<T::VV>::empty());
    } else {
        match T::sp_entry(s, v) {
            Err(_) => {
                assert(false);
            },
            Ok((t0, s1)) => {
                match sp_table::<T>(s1, (n - 1) as nat, v) {
                    Err(_) => {
                        assert(false);
                    },
                    Ok((ts, r2)) => {
                        T::entry_parse_wf(s, v, v2, t0, s1);
                        lemma_table_parse_wf::<T>(s1, (n - 1) as nat, v, v2, ts, r2);
                        assert(items == seq![t0] + ts);
                        assert forall|i: int| 0 <= i < items.len() implies T::wf_entry(
                            #[trigger] items[i],
                            v2,
                        ) by {
                            if i == 0 {
                                assert(items[i] == t0);
                            } else {
                                assert(items[i] == ts[i - 1]);
                            }
                        }
                    },
                }
            },
        }
    }
}

/// `n` consecutive entries.
pub open spec fn sp_table<T: TableEntry>(s: Seq<u8>, n: nat, v: MinecraftVersion) -> Result<
    (Seq<T::VV>, Seq<u8>),
    ReadError,
>
    decreases n,
{
    if n == 0 {
        Ok((Seq::empty(), s))
    } else {
        match T::sp_entry(s, v) {
            Ok((t, s1)) => match sp_table::<T>(s1, (n - 1) as nat, v) {
                Ok((ts, s2)) => Ok((seq![t] + ts, s2)),
                Err(e) => Err(e),
            },
            Err(e) => Err(e),
        }
    }
}

pub open spec fn se_table<T: TableEntry>(items: Seq<T::VV>, v: MinecraftVersion) -> Result<
    Seq<u8>,
    WriteError,
>
    decreases items.len(),
{
    if items.len() == 0 {
        Ok(Seq::empty())
    } else {
        match T::se_entry(items[0], v) {
            Ok(b) => match se_table::<T>(items.skip(1), v) {
                Ok(bs) => Ok(b + bs),
                Err(e) => Err(e),
            },
            Err(e) => Err(e),
        }
    }
}

pub open spec fn vw_tbl<T: TableEntry>(items: Seq<T>) -> Seq<T::VV> {
    items.map_values(|t: T| t.vw())
}

pub open spec fn norm_tbl<T: TableEntry>(items: Seq<T::VV>, v: MinecraftVersion) -> Seq<T::VV> {
    items.map_values(|t: T::VV| T::norm_entry(t, v))
}

pub open spec fn wf_tbl<T: TableEntry>(items: Seq<T::VV>, v: MinecraftVersion) -> bool {
    forall|i: int| 0 <= i < items.len() ==> T::wf_entry(#[trigger] items[i], v)
}

/// Emitting a table of well-formed entries and parsing it back gives
/// the entries, each normalised for the schema.
pub proof fn lemma_table_rt<T: TableEntry>(items: Seq<T::VV>, v: MinecraftVersion, rest: Seq<u8>)
    requires
        wf_tbl::<T>(items, v),
    ensures
        match se_table::<T>(items, v) {
            Ok(b) => sp_table::<T>(b + rest, items.len(), v) == Ok::<_, ReadError>(
                (norm_tbl::<T>(items, v), rest),
            ),
            Err(_) => true,
        },
    decreases items.len(),
{
    if items.len() == 0 {
        assert(Seq::<u8>::empty() + rest =~= rest);
        assert(norm_tbl::<T>(items, v) =~= Seq::<T::VV>::empty());
    } else {
        assert(T::wf_entry(items[0], v));
        match T::se_entry(items[0], v) {
            Err(_) => {},
            Ok(b0) => {
                let tail = items.skip(1);
                assert(wf_tbl::<T>(tail, v)) by {
                    assert(forall|i: int|
                        0 <= i < tail.len() ==> #[trigger] tail[i] == items[i + 1]);
                }
                match se_table::<T>(tail, v) {
                    Err(_) => {},
                    Ok(bs) => {
                        T::entry_rt(items[0], v, bs + rest);
                        assert((b0 + bs) + rest =~= b0 + (bs + rest));
                        lemma_table_rt::<T>(tail, v, rest);
                        assert(seq![T::norm_entry(items[0], v)] + norm_tbl::<T>(tail, v)
                            =~= norm_tbl::<T>(items, v));
                    },
                }
            },
        }
    }
}

/// Normalising entries does not change what they emit, and keeps them
/// well formed.
pub proof fn lemma_table_norm<T: TableEntry>(items: Seq<T::VV>, v: MinecraftVersion)
    ensures
        se_table::<T>(norm_tbl::<T>(items, v), v) == se_table::<T>(items, v),
        wf_tbl::<T>(items, v) ==> wf_tbl::<T>(norm_tbl::<T>(items, v), v),
    decreases items.len(),
{
    let ns = norm_tbl::<T>(items, v);
    assert forall|i: int| 0 <= i < items.len() implies {
        &&& ns[i] == T::norm_entry(items[i], v)
        &&& T::se_entry(ns[i], v) == T::se_entry(items[i], v)
        &&& T::wf_entry(items[i], v) ==> T::wf_entry(ns[i], v)
    } by {
        T::entry_norm(items[i], v);
    }
    if items.len() == 0 {
        assert(ns =~= items);
    } else {
        lemma_table_norm::<T>(items.skip(1), v);
        assert(ns.skip(1) =~= norm_tbl::<T>(items.skip(1), v));
        assert(ns.len() == items.len());
    }
}

pub fn read_table<T: TableEntry>(data: &Vec<u8>, off: usize, n: usize, v: MinecraftVersion) -> (r:
    Result<(Vec<T>, usize), ReadError>)
    requires
        off <= data@.len(),
    ensures
        match r {
            Ok((items, off2)) => off <= off2 <= data@.len() && items@.len() == n && sp_table::<T>(
                data@.skip(off as int),
                n as nat,
                v,
            ) == Ok::<_, ReadError>((vw_tbl::<T>(items@), data@.skip(off2 as int))),
            Err(e) => sp_table::<T>(data@.skip(off as int), n as nat, v) == Err::<
                (Seq<T::VV>, Seq<u8>),
                _,
            >(e),
        },
{
    let dlen = data.len();
    let mut items: Vec<T> = Vec::new();
    let mut cur = off;
    let mut i: usize = 0;
    proof {
        match sp_table::<T>(data@.skip(off as int), n as nat, v) {
            Ok((ts, s2)) => {
                assert(vw_tbl::<T>(items@) + ts =~= ts);
            },
            Err(_) => {},
        }
    }
    while i < n
        invariant
            i <= n,
            off <= cur <= dlen,
            dlen == data@.len(),
            items@.len() == i,
            sp_table::<T>(data@.skip(off as int), n as nat, v) == (match sp_table::<T>(
                data@.skip(cur as int),
                (n - i) as nat,
                v,
            ) {
                Ok((ts, s2)) => Ok::<_, ReadError>((vw_tbl::<T>(items@) + ts, s2)),
                Err(e) => Err::<(Seq<T::VV>, Seq<u8>), _>(e),
            }),
        decreases n - i,
    {
        let ghost items_old = items@;
        let ghost cur_old = cur as int;
        match T::read_entry(data, cur, v) {
            Ok((t, c2)) => {
                items.push(t);
                cur = c2;
                i = i + 1;
                proof {
                    match sp_table::<T>(data@.skip(cur as int), (n - i) as nat, v) {
                        Ok((ts, s2)) => {
                            assert(vw_tbl::<T>(items_old) + (seq![t.vw()] + ts) =~= vw_tbl::<T>(
                                items@,
                            ) + ts);
                        },
                        Err(_) => {},
                    }
                }
            },
            Err(e) => {
                proof {
                    assert(sp_table::<T>(data@.skip(cur as int), (n - i) as nat, v) == Err::<
                        (Seq<T::VV>, Seq<u8>),
                        ReadError,
                    >(e));
                }
                return Err(e);
            },
        }
    }
    proof {
        assert(sp_table::<T>(data@.skip(cur as int), 0, v) == Ok::<_, ReadError>(
            (Seq::<T::VV>::empty(), data@.skip(cur as int)),
        ));
        assert(vw_tbl::<T>(items@) + Seq::<T::VV>::empty() =~= vw_tbl::<T>(items@));
    }
    Ok((items, cur))
}

pub fn write_table<T: TableEntry>(items: &Vec<T>, v: MinecraftVersion, out: &mut Vec<u8>) -> (r:
    Result<(), WriteError>)
    ensures
        match se_table::<T>(vw_tbl::<T>(items@), v) {
            Ok(b) => r == Ok::<(), WriteError>(()) && final(out)@ == old(out)@ + b,
            Err(e) => r == Err::<(), WriteError>(e),
        },
{
    let n = items.len();
    let mut i: usize = 0;
    let ghost mut done: Seq<u8> = Seq::empty();
    proof {
        assert(out@ =~= old(out)@ + done);
        match se_table::<T>(vw_tbl::<T>(items@), v) {
            Ok(b) => {
                assert(done + b =~= b);
            },
            Err(_) => {},
        }
        assert(vw_tbl::<T>(items@.skip(0)) =~= vw_tbl::<T>(items@));
    }
    while i < n
        invariant
            i <= n,
            n == items@.len(),
            out@ == old(out)@ + done,
            se_table::<T>(vw_tbl::<T>(items@), v) == (match se_table::<T>(
                vw_tbl::<T>(items@.skip(i as int)),
                v,
            ) {
                Ok(b) => Ok::<_, WriteError>(done + b),
                Err(e) => Err::<Seq<u8>, _>(e),
            }),
        decreases n - i,
    {
        let ghost done_old = done;
        let ghost suffix = vw_tbl::<T>(items@.skip(i as int));
        proof {
            assert(suffix.len() == n - i);
            assert(suffix[0] == items@[i as int].vw());
            assert(suffix.skip(1) =~= vw_tbl::<T>(items@.skip(i as int + 1)));
        }
        let entry = &items[i];
        match entry.write_entry(v, out) {
            Ok(()) => {
                proof {
                    match T::se_entry(items@[i as int].vw(), v) {
                        Ok(b0) => {
                            done = done_old + b0;
                            assert(out@ =~= old(out)@ + done);
                            match se_table::<T>(vw_tbl::<T>(items@.skip(i as int + 1)), v) {
                                Ok(bs) => {
                                    assert(done_old + (b0 + bs) =~= done + bs);
                                },
                                Err(_) => {},
                            }
                        },
                        Err(_) => {},
                    }
                }
                i = i + 1;
            },
            Err(e) => {
                return Err(e);
            },
        }
    }
    proof {
        assert(vw_tbl::<T>(items@.skip(n as int)) =~= Seq::<T::VV>::empty());
        assert(se_table::<T>(Seq::<T::VV>::empty(), v) == Ok::<_, WriteError>(Seq::<u8>::empty()));
        match se_table::<T>(vw_tbl::<T>(items@), v) {
            Ok(b) => {
                assert(done + Seq::<u8>::empty() =~= done);
            },
            Err(_) => {},
        }
    }
    Ok(())
}

/// A key-value pair of strings: the entry of the flag tables and of
/// the override table.
impl TableEntry for (Vec<u8>, Vec<u8>) {
    type VV = (Seq<u8>, Seq<u8>);

    open spec fn vw(&self) -> (Seq<u8>, Seq<u8>) {
        (self.0@, self.1@)
    }

    open spec fn sp_entry(s: Seq<u8>, v: MinecraftVersion) -> Result<
        ((Seq<u8>, Seq<u8>), Seq<u8>),
        ReadError,
    > {
        match sp_string(s) {
            Ok((k, s1)) => match sp_string(s1) {
                Ok((val, s2)) => Ok(((k, val), s2)),
                Err(e) => Err(e),
            },
            Err(e) => Err(e),
        }
    }

    open spec fn se_entry(t: (Seq<u8>, Seq<u8>), v: MinecraftVersion) -> Result<Seq<u8>, WriteError> {
        match se_string(t.0) {
            Ok(kb) => match se_string(t.1) {
                Ok(vb) => Ok(kb + vb),
                Err(e) => Err(e),
            },
            Err(e) => Err(e),
        }
    }

    open spec fn wf_entry(t: (Seq<u8>, Seq<u8>), v: MinecraftVersion) -> bool {
        is_utf8(t.0) && is_utf8(t.1)
    }

    open spec fn norm_entry(t: (Seq<u8>, Seq<u8>), v: MinecraftVersion) -> (Seq<u8>, Seq<u8>) {
        t
    }

    fn read_entry(data: &Vec<u8>, off: usize, v: MinecraftVersion) -> (r: Result<
        (Self, usize),
        ReadError,
    >) {
        match read_string(data, off) {
            Ok((k, o1)) => match read_string(data, o1) {
                Ok((val, o2)) => Ok(((k, val), o2)),
                Err(e) => Err(e),
            },
            Err(e) => Err(e),
        }
    }

    fn write_entry(&self, v: MinecraftVersion, out: &mut Vec<u8>) -> (r: Result<(), WriteError>) {
        match write_string(&self.0, out) {
            Ok(()) => {
                let r = write_string(&self.1, out);
                proof {
                    match se_string(self.0@) {
                        Ok(kb) => {
                            match se_string(self.1@) {
                                Ok(vb) => {
                                    assert(out@ =~= old(out)@ + (kb + vb));
                                },
                                Err(_) => {},
                            }
                        },
                        Err(_) => {},
                    }
                }
                r
            },
            Err(e) => Err(e),
        }
    }

    proof fn entry_rt(t: (Seq<u8>, Seq<u8>), v: MinecraftVersion, rest: Seq<u8>) {
        match se_string(t.0) {
            Ok(kb) => {
                match se_string(t.1) {
                    Ok(vb) => {
                        seq_assoc(kb, vb, rest);
                        lemma_string_rt(t.0, vb + rest);
                        lemma_string_rt(t.1, rest);
                    },
                    Err(_) => {},
                }
            },
            Err(_) => {},
        }
    }

    proof fn entry_norm(t: (Seq<u8>, Seq<u8>), v: MinecraftVersion) {
    }

    proof fn entry_parse_wf(
        s: Seq<u8>,
        v: MinecraftVersion,
        v2: MinecraftVersion,
        t: (Seq<u8>, Seq<u8>),
        rest: Seq<u8>,
    ) {
    }
}

} // verus!
