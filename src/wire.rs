//! The protocol-buffer wire format: LEB128 integers, field keys, and the
//! splitting of a message into its fields.

use vstd::prelude::*;

verus! {

#[verifier::external_type_specification]
#[verifier::external_body]
pub struct ExDecodeError(prost::DecodeError);

/// Why bytes could not be read as a message.
#[derive(Debug, Clone, Copy, PartialEq, Eq, Structural)]
pub enum WireError {
    /// The bytes are not a well-formed message of the expected kind.
    Malformed,
}

/// The LEB128 encoding of `v`: seven bits per byte, least significant group
/// first, the high bit set on every byte but the last.
pub open spec fn varint_bytes(v: nat) -> Seq<u8>
    decreases v,
{
    if v < 128 {
        seq![v as u8]
    } else {
        seq![(v % 128 + 128) as u8] + varint_bytes(v / 128)
    }
}

/// Reads a LEB128 integer of at most `budget` bytes from the front of `s`:
/// its value and the bytes it takes. On the last byte the budget allows, only
/// 0 and 1 keep the value within 64 bits.
pub open spec fn varint_within(s: Seq<u8>, budget: nat) -> Option<(nat, nat)>
    decreases budget,
{
    if budget == 0 || s.len() == 0 {
        None
    } else if s[0] < 128 {
        if budget == 1 && s[0] >= 2 {
            None
        } else {
            Some((s[0] as nat, 1))
        }
    } else {
        match varint_within(s.drop_first(), (budget - 1) as nat) {
            Some((v, k)) => Some(((s[0] - 128) as nat + 128 * v, k + 1)),
            None => None,
        }
    }
}

/// The integer at the front of `s`, at most ten bytes long.
pub open spec fn spec_varint(s: Seq<u8>) -> Option<(nat, nat)> {
    varint_within(s, 10)
}

/// Relies on prost::encoding::decode_varint: it reads the LEB128 integer at
/// the front of the bytes, of at most ten bytes, whose tenth byte is 0 or 1,
/// and leaves the bytes after it.
#[verifier::external_body]
fn read_varint(b: &[u8]) -> (r: Result<(u64, usize), prost::DecodeError>)
    ensures
        r is Ok <==> spec_varint(b@) is Some,
        r matches Ok((v, rest)) ==> rest <= b@.len() && spec_varint(b@) == Some(
            (v as nat, (b@.len() - rest) as nat),
        ),
{
    let mut tail: &[u8] = b;
    let v = prost::encoding::decode_varint(&mut tail)?;
    Ok((v, tail.len()))
}

/// Relies on prost::encoding::encode_varint: it appends the LEB128 encoding
/// of the value.
#[verifier::external_body]
fn write_varint(v: u64, out: &mut Vec<u8>)
    ensures
        final(out)@ == old(out)@ + varint_bytes(v as nat),
{
    prost::encoding::encode_varint(v, out)
}

proof fn lemma_varint_within_len(s: Seq<u8>, budget: nat)
    ensures
        varint_within(s, budget) matches Some((v, k)) ==> 1 <= k <= s.len() && k <= budget,
    decreases budget,
{
    if budget > 0 && s.len() > 0 && s[0] >= 128 {
        lemma_varint_within_len(s.drop_first(), (budget - 1) as nat);
    }
}

/// What one field holds, by wire type.
pub ghost enum FieldView {
    Varint(nat),
    Bytes(Seq<u8>),
    Fixed,
}

/// The field at the front of `s`: its number, its value, and the bytes it
/// takes. Varints, fixed 32- and 64-bit values and length-delimited values
/// are read; any other wire type, a field number 0 or running out of bytes
/// makes the field malformed.
pub open spec fn spec_field(s: Seq<u8>) -> Option<(nat, FieldView, nat)> {
    match spec_varint(s) {
        None => None,
        Some((key, k)) => {
            let rest = s.skip(k as int);
            let number = key / 8;
            let wire = key % 8;
            if number == 0 {
                None
            } else if wire == 0 {
                match spec_varint(rest) {
                    Some((v, j)) => Some((number, FieldView::Varint(v), k + j)),
                    None => None,
                }
            } else if wire == 1 {
                if rest.len() >= 8 {
                    Some((number, FieldView::Fixed, k + 8))
                } else {
                    None
                }
            } else if wire == 2 {
                match spec_varint(rest) {
                    Some((n, j)) => if rest.len() >= j + n {
                        Some((number, FieldView::Bytes(rest.subrange(j as int, (j + n) as int)), k + j + n))
                    } else {
                        None
                    },
                    None => None,
                }
            } else if wire == 5 {
                if rest.len() >= 4 {
                    Some((number, FieldView::Fixed, k + 4))
                } else {
                    None
                }
            } else {
                None
            }
        },
    }
}

/// The fields of a message, in the order they stand, or `None` when any of
/// them is malformed.
pub open spec fn spec_fields(s: Seq<u8>) -> Option<Seq<(nat, FieldView)>>
    decreases s.len(),
{
    if s.len() == 0 {
        Some(Seq::empty())
    } else {
        match spec_field(s) {
            None => None,
            Some((num, val, n)) => if 0 < n <= s.len() {
                match spec_fields(s.skip(n as int)) {
                    Some(rest) => Some(seq![(num, val)] + rest),
                    None => None,
                }
            } else {
                None
            },
        }
    }
}

/// One field of a message as read from the wire.
pub enum FieldValue {
    Varint(u64),
    Bytes(Vec<u8>),
    Fixed,
}

impl View for FieldValue {
    type V = FieldView;

    open spec fn view(&self) -> FieldView {
        match self {
            FieldValue::Varint(v) => FieldView::Varint(*v as nat),
            FieldValue::Bytes(b) => FieldView::Bytes(b@),
            FieldValue::Fixed => FieldView::Fixed,
        }
    }
}

/// A numbered field of a message.
pub struct Field {
    pub number: u64,
    pub value: FieldValue,
}

impl View for Field {
    type V = (nat, FieldView);

    open spec fn view(&self) -> (nat, FieldView) {
        (self.number as nat, self.value@)
    }
}

/// The fields of a list, seen one by one.
pub open spec fn fields_view(fs: Seq<Field>) -> Seq<(nat, FieldView)> {
    fs.map_values(|f: Field| f@)
}

fn copy_range(b: &[u8], from: usize, to: usize) -> (r: Vec<u8>)
    requires
        from <= to <= b@.len(),
    ensures
        r@ == b@.subrange(from as int, to as int),
{
    let mut out: Vec<u8> = Vec::new();
    let mut i = from;
    while i < to
        invariant
            from <= i <= to,
            to <= b@.len(),
            out@ == b@.subrange(from as int, i as int),
        decreases to - i,
    {
        out.push(b[i]);
        i = i + 1;
        assert(out@ =~= b@.subrange(from as int, i as int));
    }
    out
}

fn varint_at(b: &[u8], pos: usize) -> (r: Result<(u64, usize), WireError>)
    requires
        pos <= b@.len(),
    ensures
        r is Ok <==> spec_varint(b@.skip(pos as int)) is Some,
        r matches Ok((v, k)) ==> spec_varint(b@.skip(pos as int)) == Some((v as nat, k as nat)) && 1
            <= k <= b@.len() - pos,
{
    let tail = &b[pos..b.len()];
    assert(tail@ =~= b@.skip(pos as int));
    proof {
        lemma_varint_within_len(tail@, 10);
    }
    match read_varint(tail) {
        Ok((v, rest)) => Ok((v, tail.len() - rest)),
        Err(_) => Err(WireError::Malformed),
    }
}

/// Reads the field that starts at `pos`, and the position after it.
pub fn next_field(b: &[u8], pos: usize) -> (r: Result<(Field, usize), WireError>)
    requires
        pos <= b@.len(),
    ensures
        r is Ok <==> spec_field(b@.skip(pos as int)) is Some,
        r matches Ok((f, end)) ==> spec_field(b@.skip(pos as int)) == Some(
            (f@.0, f@.1, (end - pos) as nat),
        ) && pos < end <= b@.len(),
{
    let ghost s = b@.skip(pos as int);
    let blen = b.len();
    let (key, k) = varint_at(b, pos)?;
    let start = pos + k;
    assert(b@.skip(start as int) =~= s.skip(k as int));
    let number = key / 8;
    let wire = key % 8;
    if number == 0 {
        return Err(WireError::Malformed);
    }
    if wire == 0 {
        let (v, j) = varint_at(b, start)?;
        Ok((Field { number, value: FieldValue::Varint(v) }, start + j))
    } else if wire == 1 {
        if b.len() - start >= 8 {
            Ok((Field { number, value: FieldValue::Fixed }, start + 8))
        } else {
            Err(WireError::Malformed)
        }
    } else if wire == 2 {
        let (n, j) = varint_at(b, start)?;
        let from = start + j;
        if ((b.len() - from) as u64) < n {
            return Err(WireError::Malformed);
        }
        let to = from + n as usize;
        let body = copy_range(b, from, to);
        assert(body@ =~= s.skip(k as int).subrange(j as int, j as int + n as int));
        Ok((Field { number, value: FieldValue::Bytes(body) }, to))
    } else if wire == 5 {
        if b.len() - start >= 4 {
            Ok((Field { number, value: FieldValue::Fixed }, start + 4))
        } else {
            Err(WireError::Malformed)
        }
    } else {
        Err(WireError::Malformed)
    }
}

/// Splits a message into its fields.
pub fn split_fields(b: &[u8]) -> (r: Result<Vec<Field>, WireError>)
    ensures
        r is Ok <==> spec_fields(b@) is Some,
        r matches Ok(fs) ==> spec_fields(b@) == Some(fields_view(fs@)),
{
    let mut out: Vec<Field> = Vec::new();
    let mut pos: usize = 0;
    assert(b@.skip(0) =~= b@);
    while pos < b.len()
        invariant
            pos <= b@.len(),
            spec_fields(b@) == match spec_fields(b@.skip(pos as int)) {
                Some(rest) => Some(fields_view(out@) + rest),
                None => None::<Seq<(nat, FieldView)>>,
            },
        decreases b@.len() - pos,
    {
        let ghost s = b@.skip(pos as int);
        let ghost before = out@;
        match next_field(b, pos) {
            Err(e) => {
                return Err(e);
            },
            Ok((f, end)) => {
                let ghost fv = f@;
                assert(b@.skip(end as int) =~= s.skip((end - pos) as int));
                out.push(f);
                assert(fields_view(out@) =~= fields_view(before) + seq![fv]);
                pos = end;
            },
        }
    }
    assert(b@.skip(pos as int) =~= Seq::<u8>::empty());
    assert(fields_view(out@) + Seq::<(nat, FieldView)>::empty() =~= fields_view(out@));
    Ok(out)
}

/// The key of field `num` with wire type `wire`.
pub open spec fn key_bytes(num: nat, wire: nat) -> Seq<u8> {
    varint_bytes(num * 8 + wire)
}

/// A varint field; left out when it holds 0, as proto3 does with defaults.
pub open spec fn varint_field_bytes(num: nat, v: u64) -> Seq<u8> {
    if v == 0 {
        Seq::empty()
    } else {
        key_bytes(num, 0) + varint_bytes(v as nat)
    }
}

/// A length-delimited field, written whatever its length.
pub open spec fn len_field_bytes(num: nat, b: Seq<u8>) -> Seq<u8> {
    key_bytes(num, 2) + varint_bytes(b.len()) + b
}

/// Appends the key of field `num` with wire type `wire`.
pub fn push_key(num: u64, wire: u64, out: &mut Vec<u8>)
    requires
        num < 0x1000_0000,
        wire < 8,
    ensures
        final(out)@ == old(out)@ + key_bytes(num as nat, wire as nat),
{
    write_varint(num * 8 + wire, out);
}

/// Appends a varint field, unless it holds 0.
pub fn push_varint_field(num: u64, v: u64, out: &mut Vec<u8>)
    requires
        num < 0x1000_0000,
    ensures
        final(out)@ == old(out)@ + varint_field_bytes(num as nat, v),
{
    if v != 0 {
        push_key(num, 0, out);
        write_varint(v, out);
    } else {
        assert(out@ =~= out@ + Seq::<u8>::empty());
    }
}

/// Appends a length-delimited field.
pub fn push_len_field(num: u64, b: &[u8], out: &mut Vec<u8>)
    requires
        num < 0x1000_0000,
    ensures
        final(out)@ == old(out)@ + len_field_bytes(num as nat, b@),
{
    let ghost start = out@;
    push_key(num, 2, out);
    write_varint(b.len() as u64, out);
    out.extend_from_slice(b);
    assert(out@ =~= start + len_field_bytes(num as nat, b@));
}

} // verus!
