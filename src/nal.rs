use crate::bytes::{be16, be16_at, lemma_be16_at, push_all, push_u16, read_u16_at};
use crate::header::Error;
use vstd::prelude::*;
use vstd::slice::{slice_subrange, slice_to_vec};

verus! {

/// A length-prefixed opaque chunk of codec data (a parameter set or a
/// supplemental enhancement information message).
#[derive(Debug, Clone, PartialEq, Eq, Default)]
pub struct NalUnit {
    pub bytes: Vec<u8>,
}

impl View for NalUnit {
    type V = Seq<u8>;

    open spec fn view(&self) -> Seq<u8> {
        self.bytes@
    }
}

/// The largest payload that a 16-bit length prefix can describe.
pub const MAX_NAL_LEN: usize = 0xFFFF;

/// The contents of each unit of `v`, in order.
pub open spec fn nal_views(v: Seq<NalUnit>) -> Seq<Seq<u8>> {
    v.map_values(|n: NalUnit| n@)
}

/// Every unit fits its 16-bit length prefix.
pub open spec fn units_fit(us: Seq<Seq<u8>>) -> bool {
    forall|i: int| 0 <= i < us.len() ==> #[trigger] us[i].len() <= MAX_NAL_LEN
}

/// The wire form of one unit: its length, then its bytes.
pub open spec fn unit_bytes(u: Seq<u8>) -> Seq<u8> {
    be16(u.len() as u16) + u
}

/// The wire forms of `us`, one after the other.
pub open spec fn units_bytes(us: Seq<Seq<u8>>) -> Seq<u8>
    decreases us.len(),
{
    if us.len() == 0 {
        Seq::empty()
    } else {
        unit_bytes(us[0]) + units_bytes(us.drop_first())
    }
}

/// The number of bytes that the wire forms of `us` take: two for each length
/// prefix plus the payloads.
pub open spec fn units_size(us: Seq<Seq<u8>>) -> nat
    decreases us.len(),
{
    if us.len() == 0 {
        0
    } else {
        2 + us[0].len() + units_size(us.drop_first())
    }
}

/// Reads `n` units from `data` at `pos`: their contents and the number of
/// bytes they took, or `None` where the data ends before the last one does.
pub open spec fn parse_units(data: Seq<u8>, pos: int, n: nat) -> Option<(Seq<Seq<u8>>, nat)>
    decreases n,
{
    if n == 0 {
        Some((Seq::empty(), 0))
    } else if pos < 0 || pos + 2 > data.len() {
        None
    } else {
        let len = be16_at(data, pos) as int;
        if pos + 2 + len > data.len() {
            None
        } else {
            match parse_units(data, pos + 2 + len, (n - 1) as nat) {
                None => None,
                Some((rest, used)) => Some(
                    (seq![data.subrange(pos + 2, pos + 2 + len)] + rest, (2 + len + used) as nat),
                ),
            }
        }
    }
}

/// What `parse_units` reads lies within the data.
pub proof fn lemma_parse_units_within(data: Seq<u8>, pos: int, n: nat)
    requires
        0 <= pos <= data.len(),
    ensures
        parse_units(data, pos, n) matches Some((us, used)) ==> pos + used <= data.len() && us.len() == n,
    decreases n,
{
    if n > 0 && pos + 2 <= data.len() {
        let len = be16_at(data, pos) as int;
        if pos + 2 + len <= data.len() {
            lemma_parse_units_within(data, pos + 2 + len, (n - 1) as nat);
        }
    }
}

/// The wire forms of `us` take `units_size(us)` bytes.
pub proof fn lemma_units_bytes_len(us: Seq<Seq<u8>>)
    ensures
        units_bytes(us).len() == units_size(us),
    decreases us.len(),
{
    if us.len() > 0 {
        lemma_units_bytes_len(us.drop_first());
    }
}

/// Each unit that fits its prefix takes at most `2 + MAX_NAL_LEN` bytes.
pub proof fn lemma_units_size_bound(us: Seq<Seq<u8>>)
    requires
        units_fit(us),
    ensures
        units_size(us) <= (2 + MAX_NAL_LEN) * us.len(),
    decreases us.len(),
{
    if us.len() > 0 {
        assert(units_fit(us.drop_first())) by {
            assert forall|i: int| 0 <= i < us.drop_first().len() implies #[trigger] us.drop_first()[i].len() <= MAX_NAL_LEN by {
                assert(us.drop_first()[i] == us[i + 1]);
            }
        }
        lemma_units_size_bound(us.drop_first());
        assert(us[0].len() <= MAX_NAL_LEN);
        assert((2 + MAX_NAL_LEN) * us.len() == (2 + MAX_NAL_LEN) + (2 + MAX_NAL_LEN) * (us.len() - 1)) by (nonlinear_arith);
    }
}

/// Units written one after the other read back as the same units.
pub proof fn lemma_parse_units_round_trip(data: Seq<u8>, pos: int, us: Seq<Seq<u8>>)
    requires
        units_fit(us),
        0 <= pos,
        pos + units_bytes(us).len() <= data.len(),
        data.subrange(pos, pos + units_bytes(us).len()) == units_bytes(us),
    ensures
        parse_units(data, pos, us.len()) == Some((us, units_bytes(us).len())),
    decreases us.len(),
{
    if us.len() > 0 {
        let u = us[0];
        let k = u.len() as int;
        let rest = us.drop_first();
        let whole = units_bytes(us);
        let n = whole.len();
        assert(u.len() <= MAX_NAL_LEN);
        assert(whole == be16(u.len() as u16) + u + units_bytes(rest));
        assert(data.subrange(pos, pos + 2) =~= data.subrange(pos, pos + n).subrange(0, 2));
        assert(data.subrange(pos, pos + 2) =~= be16(u.len() as u16));
        lemma_be16_at(data, pos, u.len() as u16);
        let q = pos + 2 + k;
        assert(whole.subrange(2, 2 + k) =~= u);
        assert(whole.subrange(2 + k, n as int) =~= units_bytes(rest));
        assert(data.subrange(pos + 2, q) =~= data.subrange(pos, pos + n).subrange(2, 2 + k));
        assert(data.subrange(q, pos + n) =~= data.subrange(pos, pos + n).subrange(2 + k, n as int));
        assert(units_fit(rest)) by {
            assert forall|i: int| 0 <= i < rest.len() implies #[trigger] rest[i].len() <= MAX_NAL_LEN by {
                assert(rest[i] == us[i + 1]);
            }
        }
        lemma_parse_units_round_trip(data, q, rest);
        assert(seq![u] + rest =~= us);
    }
}

impl NalUnit {
    /// A unit holding a copy of `bytes`.
    pub fn new(bytes: &[u8]) -> (r: NalUnit)
        ensures
            r@ == bytes@,
    {
        NalUnit { bytes: slice_to_vec(bytes) }
    }

    /// The number of bytes of the unit's wire form.
    pub fn size(&self) -> (r: usize)
        requires
            self@.len() <= MAX_NAL_LEN,
        ensures
            r == unit_bytes(self@).len(),
            r == 2 + self@.len(),
    {
        2 + self.bytes.len()
    }

    /// Appends the unit's wire form to `out` and returns its length.
    pub fn write(&self, out: &mut Vec<u8>) -> (r: u64)
        requires
            self@.len() <= MAX_NAL_LEN,
        ensures
            final(out)@ == old(out)@ + unit_bytes(self@),
            r == unit_bytes(self@).len(),
    {
        push_u16(out, self.bytes.len() as u16);
        push_all(out, self.bytes.as_slice());
        assert(final(out)@ =~= old(out)@ + unit_bytes(self@));
        self.size() as u64
    }

    /// Reads one unit at `pos`: the unit and the position after it, or
    /// `UnexpectedEof` where the data ends before the unit does.
    pub fn read(data: &[u8], pos: usize) -> (r: Result<(NalUnit, usize), Error>)
        requires
            pos <= data@.len(),
        ensures
            match parse_units(data@, pos as int, 1) {
                None => r == Err::<(NalUnit, usize), Error>(Error::UnexpectedEof),
                Some((us, used)) => r matches Ok((u, next)) && u@ == us[0] && next == pos + used,
            },
    {
        reveal_with_fuel(parse_units, 2);
        if data.len() - pos < 2 {
            return Err(Error::UnexpectedEof);
        }
        let len = read_u16_at(data, pos) as usize;
        if data.len() - pos - 2 < len {
            return Err(Error::UnexpectedEof);
        }
        let bytes = slice_to_vec(slice_subrange(data, pos + 2, pos + 2 + len));
        Ok((NalUnit { bytes }, pos + 2 + len))
    }
}

/// Appends the wire forms of `units`, in order.
pub fn write_units(units: &Vec<NalUnit>, out: &mut Vec<u8>)
    requires
        units_fit(nal_views(units@)),
    ensures
        final(out)@ == old(out)@ + units_bytes(nal_views(units@)),
{
    let ghost us = nal_views(units@);
    let mut i: usize = 0;
    assert(us.skip(0) =~= us);
    while i < units.len()
        invariant
            i <= units@.len(),
            us == nal_views(units@),
            units_fit(us),
            out@ + units_bytes(us.skip(i as int)) == old(out)@ + units_bytes(us),
        decreases units@.len() - i,
    {
        assert(us[i as int] == units@[i as int]@);
        assert(us.skip(i as int).drop_first() =~= us.skip(i + 1));
        units[i].write(out);
        i = i + 1;
        assert(out@ + units_bytes(us.skip(i as int)) =~= old(out)@ + units_bytes(us));
    }
    assert(us.skip(i as int) =~= Seq::<Seq<u8>>::empty());
    assert(out@ =~= old(out)@ + units_bytes(us));
}

/// Reads `n` units at `pos`: the units and the position after the last, or
/// `UnexpectedEof` where the data ends before they do.
pub fn read_units(data: &[u8], pos: usize, n: u16) -> (r: Result<(Vec<NalUnit>, usize), Error>)
    requires
        pos <= data@.len(),
    ensures
        match parse_units(data@, pos as int, n as nat) {
            None => r == Err::<(Vec<NalUnit>, usize), Error>(Error::UnexpectedEof),
            Some((us, used)) => r matches Ok((v, next)) && nal_views(v@) == us && next == pos + used,
        },
{
    let mut v: Vec<NalUnit> = Vec::new();
    let mut p: usize = pos;
    let mut i: u16 = 0;
    while i < n
        invariant
            i <= n,
            pos <= p <= data@.len(),
            parse_units(data@, pos as int, n as nat) == match parse_units(data@, p as int, (n - i) as nat) {
                None => None,
                Some((rest, used)) => Some((nal_views(v@) + rest, (p - pos + used) as nat)),
            },
        decreases n - i,
    {
        reveal_with_fuel(parse_units, 2);
        let ghost before = nal_views(v@);
        match NalUnit::read(data, p) {
            Err(e) => {
                return Err(e);
            },
            Ok((u, next)) => {
                v.push(u);
                assert(nal_views(v@) =~= before + seq![u@]);
                proof {
                    match parse_units(data@, next as int, (n - i - 1) as nat) {
                        None => {},
                        Some((rest, used)) => {
                            assert(before + (seq![u@] + rest) =~= nal_views(v@) + rest);
                        },
                    }
                }
                p = next;
            },
        }
        i = i + 1;
    }
    assert(nal_views(v@) + Seq::<Seq<u8>>::empty() =~= nal_views(v@));
    Ok((v, p))
}

} // verus!
