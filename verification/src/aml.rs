//! Encoders for the ACPI Machine Language terms that the tables use.
//!
//! Every encoder appends the encoding of one term to a sink; a term that
//! holds other terms takes their encodings, already concatenated.
use vstd::prelude::*;
use crate::hex::{hex_value, is_hex_digit, nibble};
use crate::le::{le16, le32, le64, push_slice, push_u16, push_u32, push_u64};

verus! {

pub const ZERO_OP: u8 = 0x00;
pub const ONE_OP: u8 = 0x01;
pub const NAME_OP: u8 = 0x08;
pub const BYTE_PREFIX: u8 = 0x0a;
pub const WORD_PREFIX: u8 = 0x0b;
pub const DWORD_PREFIX: u8 = 0x0c;
pub const QWORD_PREFIX: u8 = 0x0e;
pub const SCOPE_OP: u8 = 0x10;
pub const BUFFER_OP: u8 = 0x11;
pub const METHOD_OP: u8 = 0x14;
pub const EXT_OP_PREFIX: u8 = 0x5b;
pub const ARG0_OP: u8 = 0x68;
pub const DEVICE_OP: u8 = 0x82;
pub const IO_PORT_DESC: u8 = 0x47;
pub const END_TAG: u8 = 0x79;

/// Largest term body the encoders take: what leaves room to count the
/// package length field itself without overflow.
pub const MAX_BODY: usize = usize::MAX - 16;

// ---------------------------------------------------------------- PkgLength

/// Number of bytes that the package length of a body of `len` bytes takes.
pub open spec fn pkg_length_size(len: int) -> int {
    if len < 63 {
        1
    } else if len < 4094 {
        2
    } else if len < 1048573 {
        3
    } else {
        4
    }
}

/// The length that the field records: the body, plus the field itself when
/// `include_self` holds.
pub open spec fn pkg_length_value(len: int, include_self: bool) -> int {
    len + if include_self {
        pkg_length_size(len)
    } else {
        0
    }
}

/// The package length field: the lead byte holds the count of bytes that
/// follow in bits 7-6, and the low bits of the length; the bytes that follow
/// hold the rest of the length, least significant first.
pub open spec fn spec_pkg_length(len: int, include_self: bool) -> Seq<u8> {
    let n = pkg_length_value(len, include_self);
    let size = pkg_length_size(len);
    if size == 1 {
        seq![n as u8]
    } else if size == 2 {
        seq![(0x40 + n % 16) as u8, ((n / 16) % 256) as u8]
    } else if size == 3 {
        seq![(0x80 + n % 16) as u8, ((n / 16) % 256) as u8, ((n / 4096) % 256) as u8]
    } else {
        seq![
            (0xc0 + n % 16) as u8,
            ((n / 16) % 256) as u8,
            ((n / 4096) % 256) as u8,
            ((n / 1048576) % 256) as u8,
        ]
    }
}

/// Reads a package length field: the recorded length and the number of
/// bytes that the field takes.
pub open spec fn pkg_length_decode(b: Seq<u8>) -> (int, int) {
    let b0 = b[0] as int;
    let follow = b0 / 64;
    if follow == 0 {
        (b0 % 64, 1)
    } else if follow == 1 {
        (b0 % 16 + b[1] * 16, 2)
    } else if follow == 2 {
        (b0 % 16 + b[1] * 16 + b[2] * 4096, 3)
    } else {
        (b0 % 16 + b[1] * 16 + b[2] * 4096 + b[3] * 1048576, 4)
    }
}

/// A package length field takes as many bytes as `pkg_length_size` says,
/// and reading it back gives the length that it records, for every length
/// that fits the field's 28 bits.
pub proof fn lemma_pkg_length_roundtrip(len: int, include_self: bool)
    requires
        0 <= len,
        pkg_length_value(len, include_self) < 0x1000_0000,
    ensures
        spec_pkg_length(len, include_self).len() == pkg_length_size(len),
        pkg_length_decode(spec_pkg_length(len, include_self)) == (
            pkg_length_value(len, include_self),
            pkg_length_size(len),
        ),
{
    let n = pkg_length_value(len, include_self);
    let b = spec_pkg_length(len, include_self);
    let size = pkg_length_size(len);
    assert(0 <= n % 16 < 16) by (nonlinear_arith);
    assert(n == n % 16 + (n / 16) * 16) by (nonlinear_arith);
    if size == 1 {
        assert(n < 64);
        assert((b[0] as int) / 64 == 0);
    } else if size == 2 {
        assert(n < 4096);
        assert(n / 16 < 256) by (nonlinear_arith)
            requires
                0 <= n < 4096,
        ;
        assert((b[0] as int) / 64 == 1);
        assert((b[0] as int) % 16 == n % 16);
    } else if size == 3 {
        assert(n < 1048576);
        assert((n / 16) == (n / 16) % 256 + (n / 4096) * 256) by (nonlinear_arith)
            requires
                0 <= n,
        ;
        assert(n / 4096 < 256) by (nonlinear_arith)
            requires
                0 <= n < 1048576,
        ;
        assert((b[0] as int) / 64 == 2);
        assert((b[0] as int) % 16 == n % 16);
    } else {
        assert((n / 16) == (n / 16) % 256 + (n / 4096) * 256) by (nonlinear_arith)
            requires
                0 <= n,
        ;
        assert((n / 4096) == (n / 4096) % 256 + (n / 1048576) * 256) by (nonlinear_arith)
            requires
                0 <= n,
        ;
        assert(n / 1048576 < 256) by (nonlinear_arith)
            requires
                0 <= n < 0x1000_0000,
        ;
        assert((b[0] as int) / 64 == 3);
        assert((b[0] as int) % 16 == n % 16);
    }
}

/// Encodes the package length of a body of `len` bytes.
pub fn pkg_length(len: usize, include_self: bool) -> (result: Vec<u8>)
    requires
        len <= usize::MAX - 4,
    ensures
        result@ == spec_pkg_length(len as int, include_self),
{
    let mut result: Vec<u8> = Vec::with_capacity(4);
    let length_length: usize = if len < 63 {
        1
    } else if len < 4094 {
        2
    } else if len < 1048573 {
        3
    } else {
        4
    };
    let length: usize = len + if include_self {
        length_length
    } else {
        0
    };
    let lo: u8 = (length & 0xf) as u8;
    let b1: u8 = (length >> 4usize) as u8;
    let b2: u8 = (length >> 12usize) as u8;
    let b3: u8 = (length >> 20usize) as u8;
    assert(((length & 0xf) as u8) == length % 16 && ((length & 0xf) as u8) < 16) by (bit_vector);
    assert(((length >> 4usize) as u8) == (length / 16) % 256) by (bit_vector);
    assert(((length >> 12usize) as u8) == (length / 4096) % 256) by (bit_vector);
    assert(((length >> 20usize) as u8) == (length / 1048576) % 256) by (bit_vector);
    if length_length == 1 {
        result.push(length as u8);
    } else if length_length == 2 {
        assert((1u8 << 6u8) | lo == 0x40 + lo) by (bit_vector)
            requires
                lo < 16,
        ;
        result.push((1u8 << 6u8) | lo);
        result.push(b1);
    } else if length_length == 3 {
        assert((2u8 << 6u8) | lo == 0x80 + lo) by (bit_vector)
            requires
                lo < 16,
        ;
        result.push((2u8 << 6u8) | lo);
        result.push(b1);
        result.push(b2);
    } else {
        assert((3u8 << 6u8) | lo == 0xc0 + lo) by (bit_vector)
            requires
                lo < 16,
        ;
        result.push((3u8 << 6u8) | lo);
        result.push(b1);
        result.push(b2);
        result.push(b3);
    }
    assert(result@ =~= spec_pkg_length(len as int, include_self));
    result
}

// ---------------------------------------------------------------- integers

/// An integer constant that fits a byte: `Zero`, `One`, or a byte constant.
pub open spec fn aml_byte_const(v: u8) -> Seq<u8> {
    if v == 0 {
        seq![ZERO_OP]
    } else if v == 1 {
        seq![ONE_OP]
    } else {
        seq![BYTE_PREFIX, v]
    }
}

/// An integer constant in the shortest of the forms that fit it, up to a word.
pub open spec fn aml_word_const(v: u16) -> Seq<u8> {
    if v <= 0xff {
        aml_byte_const(v as u8)
    } else {
        seq![WORD_PREFIX] + le16(v)
    }
}

/// An integer constant in the shortest of the forms that fit it, up to a
/// double word.
pub open spec fn aml_dword_const(v: u32) -> Seq<u8> {
    if v <= 0xffff {
        aml_word_const(v as u16)
    } else {
        seq![DWORD_PREFIX] + le32(v)
    }
}

/// An integer constant in the shortest of the forms that fit it.
pub open spec fn aml_qword_const(v: u64) -> Seq<u8> {
    if v <= 0xffff_ffff {
        aml_dword_const(v as u32)
    } else {
        seq![QWORD_PREFIX] + le64(v)
    }
}

/// Appends the integer constant `v`.
pub fn aml_byte(sink: &mut Vec<u8>, v: u8)
    ensures
        final(sink)@ == old(sink)@ + aml_byte_const(v),
{
    if v == 0 {
        sink.push(ZERO_OP);
    } else if v == 1 {
        sink.push(ONE_OP);
    } else {
        sink.push(BYTE_PREFIX);
        sink.push(v);
    }
    assert(sink@ =~= old(sink)@ + aml_byte_const(v));
}

/// Appends the integer constant `v`.
pub fn aml_word(sink: &mut Vec<u8>, v: u16)
    ensures
        final(sink)@ == old(sink)@ + aml_word_const(v),
{
    if v <= 0xff {
        aml_byte(sink, v as u8);
    } else {
        sink.push(WORD_PREFIX);
        push_u16(sink, v);
        assert(sink@ =~= old(sink)@ + aml_word_const(v));
    }
}

/// Appends the integer constant `v`.
pub fn aml_dword(sink: &mut Vec<u8>, v: u32)
    ensures
        final(sink)@ == old(sink)@ + aml_dword_const(v),
{
    if v <= 0xffff {
        aml_word(sink, v as u16);
    } else {
        sink.push(DWORD_PREFIX);
        push_u32(sink, v);
        assert(sink@ =~= old(sink)@ + aml_dword_const(v));
    }
}

/// Appends the integer constant `v`.
pub fn aml_qword(sink: &mut Vec<u8>, v: u64)
    ensures
        final(sink)@ == old(sink)@ + aml_qword_const(v),
{
    if v <= 0xffff_ffff {
        aml_dword(sink, v as u32);
    } else {
        sink.push(QWORD_PREFIX);
        push_u64(sink, v);
        assert(sink@ =~= old(sink)@ + aml_qword_const(v));
    }
}

// ---------------------------------------------------------------- terms

/// An opcode followed by a package length that counts itself, then the body.
pub open spec fn aml_package(opcode: Seq<u8>, body: Seq<u8>) -> Seq<u8> {
    opcode + spec_pkg_length(body.len() as int, true) + body
}

/// `Name (path, inner)`.
pub open spec fn aml_name(path: Seq<u8>, inner: Seq<u8>) -> Seq<u8> {
    seq![NAME_OP] + path + inner
}

/// `Device (path) { children }`.
pub open spec fn aml_device(path: Seq<u8>, children: Seq<u8>) -> Seq<u8> {
    aml_package(seq![EXT_OP_PREFIX, DEVICE_OP], path + children)
}

/// `Scope (path) { children }`.
pub open spec fn aml_scope(path: Seq<u8>, children: Seq<u8>) -> Seq<u8> {
    aml_package(seq![SCOPE_OP], path + children)
}

/// The flags byte of a method: its argument count in bits 2-0, and bit 3
/// set when it is serialized.
pub open spec fn method_flags(args: u8, serialized: bool) -> u8 {
    ((args % 8) + if serialized {
        8u8
    } else {
        0u8
    }) as u8
}

/// `Method (path, args, serialized) { children }`.
pub open spec fn aml_method(path: Seq<u8>, args: u8, serialized: bool, children: Seq<u8>) -> Seq<
    u8,
> {
    aml_package(seq![METHOD_OP], path + seq![method_flags(args, serialized)] + children)
}

/// A call of the method at `path` with the given arguments.
pub open spec fn aml_method_call(path: Seq<u8>, args: Seq<u8>) -> Seq<u8> {
    path + args
}

/// `ArgN`.
pub open spec fn aml_arg(n: u8) -> Seq<u8> {
    seq![(ARG0_OP + n) as u8]
}

/// `Buffer () { data }`: the buffer size as an integer, then the data.
pub open spec fn aml_buffer(data: Seq<u8>) -> Seq<u8> {
    aml_package(seq![BUFFER_OP], aml_qword_const(data.len() as u64) + data)
}

/// `ResourceTemplate () { descriptors }`: a buffer that holds the
/// descriptors, an end tag and a zero checksum byte.
pub open spec fn aml_resource_template(descriptors: Seq<u8>) -> Seq<u8> {
    aml_buffer(descriptors + seq![END_TAG, 0u8])
}

/// `IO (Decode16, min, max, alignment, length)`.
pub open spec fn aml_io(min: u16, max: u16, alignment: u8, length: u8) -> Seq<u8> {
    seq![IO_PORT_DESC, 1u8] + le16(min) + le16(max) + seq![alignment, length]
}

/// Appends `opcode`, the package length of `body` and `body`.
fn append_package(sink: &mut Vec<u8>, opcode: &[u8], body: &[u8])
    requires
        body@.len() <= MAX_BODY,
    ensures
        final(sink)@ == old(sink)@ + aml_package(opcode@, body@),
{
    push_slice(sink, opcode);
    let len = pkg_length(body.len(), true);
    push_slice(sink, len.as_slice());
    push_slice(sink, body);
    assert(sink@ =~= old(sink)@ + aml_package(opcode@, body@));
}

/// Appends `Name (path, inner)`, where `inner` is the encoded object.
pub fn append_name(sink: &mut Vec<u8>, path: &[u8; 4], inner: &[u8])
    ensures
        final(sink)@ == old(sink)@ + aml_name(path@, inner@),
{
    sink.push(NAME_OP);
    push_slice(sink, path);
    push_slice(sink, inner);
    assert(sink@ =~= old(sink)@ + aml_name(path@, inner@));
}

/// Appends `Device (path) { children }`, where `children` are the encoded
/// terms inside the device.
pub fn append_device(sink: &mut Vec<u8>, path: &[u8; 4], children: &[u8])
    requires
        children@.len() <= MAX_BODY - 4,
    ensures
        final(sink)@ == old(sink)@ + aml_device(path@, children@),
{
    let mut body: Vec<u8> = Vec::new();
    push_slice(&mut body, path);
    push_slice(&mut body, children);
    let op: [u8; 2] = [EXT_OP_PREFIX, DEVICE_OP];
    assert(op@ =~= seq![EXT_OP_PREFIX, DEVICE_OP]);
    append_package(sink, &op, body.as_slice());
}

/// Appends `Scope (path) { children }`.
pub fn append_scope(sink: &mut Vec<u8>, path: &[u8; 4], children: &[u8])
    requires
        children@.len() <= MAX_BODY - 4,
    ensures
        final(sink)@ == old(sink)@ + aml_scope(path@, children@),
{
    let mut body: Vec<u8> = Vec::new();
    push_slice(&mut body, path);
    push_slice(&mut body, children);
    let op: [u8; 1] = [SCOPE_OP];
    assert(op@ =~= seq![SCOPE_OP]);
    append_package(sink, &op, body.as_slice());
}

/// Appends `Method (path, args, serialized) { children }`.
pub fn append_method(sink: &mut Vec<u8>, path: &[u8; 4], args: u8, serialized: bool, children: &[u8])
    requires
        children@.len() <= MAX_BODY - 5,
    ensures
        final(sink)@ == old(sink)@ + aml_method(path@, args, serialized, children@),
{
    let mut body: Vec<u8> = Vec::new();
    push_slice(&mut body, path);
    let flags: u8 = (args & 0x7) | ((serialized as u8) << 3u8);
    proof {
        let s: u8 = if serialized { 1u8 } else { 0u8 };
        assert((args & 0x7) | (s << 3u8) == (args % 8) + s * 8) by (bit_vector)
            requires
                s <= 1,
        ;
    }
    body.push(flags);
    push_slice(&mut body, children);
    let op: [u8; 1] = [METHOD_OP];
    assert(op@ =~= seq![METHOD_OP]);
    assert(body@ =~= path@ + seq![method_flags(args, serialized)] + children@);
    append_package(sink, &op, body.as_slice());
}

/// Appends a call of the method at `path` with the encoded arguments `args`.
pub fn append_method_call(sink: &mut Vec<u8>, path: &[u8; 4], args: &[u8])
    ensures
        final(sink)@ == old(sink)@ + aml_method_call(path@, args@),
{
    push_slice(sink, path);
    push_slice(sink, args);
    assert(sink@ =~= old(sink)@ + aml_method_call(path@, args@));
}

/// Appends `ArgN` (valid AML has `Arg0` to `Arg6`).
pub fn append_arg(sink: &mut Vec<u8>, n: u8)
    requires
        ARG0_OP + n <= 0xff,
    ensures
        final(sink)@ == old(sink)@ + aml_arg(n),
{
    sink.push(ARG0_OP + n);
    assert(sink@ =~= old(sink)@ + aml_arg(n));
}

/// Appends `Buffer () { data }`.
pub fn append_buffer(sink: &mut Vec<u8>, data: &[u8])
    requires
        data@.len() <= MAX_BODY - 9,
    ensures
        final(sink)@ == old(sink)@ + aml_buffer(data@),
{
    let mut body: Vec<u8> = Vec::new();
    aml_qword(&mut body, data.len() as u64);
    push_slice(&mut body, data);
    let op: [u8; 1] = [BUFFER_OP];
    assert(op@ =~= seq![BUFFER_OP]);
    append_package(sink, &op, body.as_slice());
}

/// Appends `ResourceTemplate () { descriptors }`.
pub fn append_resource_template(sink: &mut Vec<u8>, descriptors: &[u8])
    requires
        descriptors@.len() <= MAX_BODY - 11,
    ensures
        final(sink)@ == old(sink)@ + aml_resource_template(descriptors@),
{
    let mut bytes: Vec<u8> = Vec::new();
    push_slice(&mut bytes, descriptors);
    bytes.push(END_TAG);
    bytes.push(0u8);
    assert(bytes@ =~= descriptors@ + seq![END_TAG, 0u8]);
    append_buffer(sink, bytes.as_slice());
}

/// Appends `IO (Decode16, min, max, alignment, length)`.
pub fn append_io(sink: &mut Vec<u8>, min: u16, max: u16, alignment: u8, length: u8)
    ensures
        final(sink)@ == old(sink)@ + aml_io(min, max, alignment, length),
{
    sink.push(IO_PORT_DESC);
    sink.push(1u8);
    push_u16(sink, min);
    push_u16(sink, max);
    sink.push(alignment);
    sink.push(length);
    assert(sink@ =~= old(sink)@ + aml_io(min, max, alignment, length));
}

// ---------------------------------------------------------------- EISA IDs

/// A seven-character EISA ID: three characters at or above `@`, then four
/// hexadecimal digits.
pub open spec fn eisa_id_ok(id: Seq<u8>) -> bool {
    &&& id.len() == 7
    &&& forall|i: int| 0 <= i < 3 ==> 0x40 <= #[trigger] id[i]
    &&& forall|i: int| 3 <= i < 7 ==> is_hex_digit(#[trigger] id[i])
}

/// The compressed EISA ID: five bits for each letter, four for each digit.
pub open spec fn eisa_compressed(id: Seq<u8>) -> u32 {
    (((id[0] - 0x40) as u32) << 26u32) | (((id[1] - 0x40) as u32) << 21u32) | (((id[2]
        - 0x40) as u32) << 16u32) | ((hex_value(id[3]) as u32) << 12u32) | ((hex_value(id[4])
        as u32) << 8u32) | ((hex_value(id[5]) as u32) << 4u32) | (hex_value(id[6]) as u32)
}

/// `v` with its four bytes in reverse order.
pub open spec fn swap_bytes32(v: u32) -> u32 {
    (v << 24u32) | ((v << 8u32) & 0x00ff_0000) | ((v >> 8u32) & 0x0000_ff00) | (v >> 24u32)
}

/// The value of an EISA ID as the tables hold it.
pub open spec fn eisa_value(id: Seq<u8>) -> u32 {
    swap_bytes32(eisa_compressed(id))
}

/// `EISAID ("...")`: the EISA ID as an integer constant.
pub open spec fn aml_eisa_name(id: Seq<u8>) -> Seq<u8> {
    aml_dword_const(eisa_value(id))
}

/// Appends the EISA ID `id` as an integer constant.
pub fn append_eisa_name(sink: &mut Vec<u8>, id: &[u8; 7])
    requires
        eisa_id_ok(id@),
    ensures
        final(sink)@ == old(sink)@ + aml_eisa_name(id@),
{
    let c0: u8 = id[0] - 0x40;
    let c1: u8 = id[1] - 0x40;
    let c2: u8 = id[2] - 0x40;
    let d3: u8 = nibble(id[3]);
    let d4: u8 = nibble(id[4]);
    let d5: u8 = nibble(id[5]);
    let d6: u8 = nibble(id[6]);
    let raw: u32 = ((c0 as u32) << 26u32) | ((c1 as u32) << 21u32) | ((c2 as u32) << 16u32) | ((
    d3 as u32) << 12u32) | ((d4 as u32) << 8u32) | ((d5 as u32) << 4u32) | (d6 as u32);
    let value: u32 = (raw << 24u32) | ((raw << 8u32) & 0x00ff_0000) | ((raw >> 8u32)
        & 0x0000_ff00) | (raw >> 24u32);
    assert(raw == eisa_compressed(id@));
    aml_dword(sink, value);
}

} // verus!
