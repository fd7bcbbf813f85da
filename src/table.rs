use vstd::prelude::*;

use crate::cfi::{
    all_encodable, encode_instructions, write_instructions, CallFrameInstruction, Register,
};
use crate::error::FrameError;
use crate::leb128::{sleb128, uleb128, write_sleb128, write_uleb128};
use crate::systemv::UnwindInfo;

verus! {

/// The id that marks the shared header entry in `.debug_frame`.
pub const CIE_ID: u32 = 0xffff_ffff;

/// The `.debug_frame` version written in the header entry.
pub const CIE_VERSION: u8 = 4;

/// The entry shared by every function: alignment factors, return address
/// register and the rules in force at function entry.
#[derive(Debug, Clone, PartialEq, Eq)]
pub struct HeaderEntry {
    pub address_size: u8,
    pub code_alignment_factor: u8,
    pub data_alignment_factor: i8,
    pub return_address_register: Register,
    pub instructions: Vec<CallFrameInstruction>,
}

impl HeaderEntry {
    /// An address is four or eight bytes.
    pub open spec fn wf(&self) -> bool {
        self.address_size == 4 || self.address_size == 8
    }
}

/// One header entry and one entry for each function, in function order.
#[derive(Debug, Clone, PartialEq, Eq)]
pub struct FrameTable {
    pub header: HeaderEntry,
    pub entries: Vec<UnwindInfo>,
}

/// A serialized frame table and, for each function entry in turn, the offset
/// of the field that must receive the function's address.
#[derive(Debug, Clone, PartialEq, Eq)]
pub struct EncodedFrameTable {
    pub bytes: Vec<u8>,
    pub relocations: Vec<usize>,
}

/// `v` as `n` bytes, least significant first.
pub open spec fn le_bytes(v: nat, n: nat) -> Seq<u8>
    decreases n,
{
    if n == 0 {
        seq![]
    } else {
        seq![(v % 256) as u8] + le_bytes(v / 256, (n - 1) as nat)
    }
}

/// `n` zero bytes.
pub open spec fn zeros(n: nat) -> Seq<u8> {
    Seq::new(n, |k: int| 0u8)
}

/// How many bytes bring `len` up to a multiple of `align`.
pub open spec fn pad_len(len: nat, align: nat) -> nat {
    ((align as int - (len % align) as int) % (align as int)) as nat
}

/// The length field of an entry with this body: the body and its padding,
/// without the field itself.
pub open spec fn entry_length(body: Seq<u8>, align: nat) -> nat {
    body.len() + pad_len(4 + body.len(), align)
}

/// An entry: its 32-bit length, its body, and zero padding up to a multiple
/// of the address size.
pub open spec fn frame_entry(body: Seq<u8>, align: nat) -> Seq<u8> {
    le_bytes(entry_length(body, align), 4) + body + zeros(pad_len(4 + body.len(), align))
}

/// An entry whose body ends with the instructions `instrs`: it fails on an
/// advance that is too large, then on a length that does not fit 32 bits.
pub open spec fn entry_result(instrs: Seq<CallFrameInstruction>, body: Seq<u8>, align: nat) -> Result<
    Seq<u8>,
    FrameError,
> {
    if !all_encodable(instrs) {
        Err(FrameError::AdvanceTooLarge)
    } else if entry_length(body, align) > u32::MAX {
        Err(FrameError::EntryTooLarge)
    } else {
        Ok(frame_entry(body, align))
    }
}

/// The body of the header entry: its id, the version, an empty augmentation
/// string, the address and segment selector sizes, the alignment factors,
/// the return address register and the initial instructions.
pub open spec fn header_body(h: HeaderEntry) -> Seq<u8> {
    le_bytes(CIE_ID as nat, 4) + seq![CIE_VERSION, 0u8, h.address_size, 0u8] + uleb128(
        h.code_alignment_factor as nat,
    ) + sleb128(h.data_alignment_factor as int) + uleb128(h.return_address_register as nat)
        + encode_instructions(h.instructions@)
}

/// The body of a function entry: the header entry's offset (zero), a zero
/// placeholder for the function's address, its code length, its instructions.
pub open spec fn function_body(address_size: u8, f: UnwindInfo) -> Seq<u8> {
    le_bytes(0, 4) + le_bytes(0, address_size as nat) + le_bytes(f.len as nat, address_size as nat)
        + encode_instructions(f.instructions@)
}

/// The function entries of `fs` written after `base` bytes, with the offsets
/// of their address placeholders, or the first entry's failure.
pub open spec fn functions_result(address_size: u8, fs: Seq<UnwindInfo>, base: nat) -> Result<
    (Seq<u8>, Seq<nat>),
    FrameError,
>
    decreases fs.len(),
{
    if fs.len() == 0 {
        Ok((seq![], seq![]))
    } else {
        match functions_result(address_size, fs.drop_last(), base) {
            Err(e) => Err(e),
            Ok((bytes, relocs)) => {
                let f = fs.last();
                match entry_result(
                    f.instructions@,
                    function_body(address_size, f),
                    address_size as nat,
                ) {
                    Err(e) => Err(e),
                    Ok(entry) => Ok((bytes + entry, relocs.push(base + bytes.len() + 8))),
                }
            },
        }
    }
}

/// The serialized table: the header entry, then each function entry, with
/// the offsets of the address placeholders; or the first entry's failure.
pub open spec fn table_result(t: FrameTable) -> Result<(Seq<u8>, Seq<nat>), FrameError> {
    let a = t.header.address_size;
    match entry_result(t.header.instructions@, header_body(t.header), a as nat) {
        Err(e) => Err(e),
        Ok(cie) => match functions_result(a, t.entries@, cie.len()) {
            Err(e) => Err(e),
            Ok((bytes, relocs)) => Ok((cie + bytes, relocs)),
        },
    }
}

proof fn lemma_le_bytes_len(v: nat, n: nat)
    ensures
        le_bytes(v, n).len() == n,
    decreases n,
{
    if n > 0 {
        lemma_le_bytes_len(v / 256, (n - 1) as nat);
    }
}

/// Appends `v` as `n` bytes, least significant first.
fn write_le(out: &mut Vec<u8>, v: u64, n: u8)
    ensures
        final(out)@ == old(out)@ + le_bytes(v as nat, n as nat),
{
    let mut rest: u64 = v;
    let mut k: u8 = 0;
    while k < n
        invariant
            k <= n,
            out@ + le_bytes(rest as nat, (n - k) as nat) == old(out)@ + le_bytes(v as nat, n as nat),
        decreases n - k,
    {
        let ghost before = out@;
        out.push((rest % 256) as u8);
        assert(before + le_bytes(rest as nat, (n - k) as nat) == out@ + le_bytes(
            (rest / 256) as nat,
            (n - k - 1) as nat,
        ));
        rest = rest / 256;
        k = k + 1;
    }
}

/// Appends the entry with body `body`: its length, the body, the padding.
fn write_entry(out: &mut Vec<u8>, body: Vec<u8>, align: u8) -> (r: Result<(), FrameError>)
    requires
        align > 0,
    ensures
        r is Ok <==> entry_length(body@, align as nat) <= u32::MAX,
        r is Err ==> r == Err::<(), FrameError>(FrameError::EntryTooLarge),
        r is Ok ==> final(out)@ == old(out)@ + frame_entry(body@, align as nat),
{
    let mut body = body;
    let ghost b = body@;
    if body.len() > 0xffff_ffffusize {
        return Err(FrameError::EntryTooLarge);
    }
    let total: u64 = 4 + body.len() as u64;
    let pad: u64 = (align as u64 - total % align as u64) % align as u64;
    assert(pad == pad_len(4 + b.len(), align as nat));
    if body.len() as u64 + pad > 0xffff_ffffu64 {
        return Err(FrameError::EntryTooLarge);
    }
    write_le(out, body.len() as u64 + pad, 4);
    out.append(&mut body);
    let ghost mid = out@;
    let mut k: u64 = 0;
    while k < pad
        invariant
            k <= pad,
            out@ == mid + zeros(k as nat),
        decreases pad - k,
    {
        out.push(0u8);
        k = k + 1;
        assert(out@ == mid + zeros(k as nat));
    }
    Ok(())
}

/// Appends the header entry of `h`.
fn write_header_entry(out: &mut Vec<u8>, h: &HeaderEntry) -> (r: Result<(), FrameError>)
    requires
        h.wf(),
    ensures
        r is Ok <==> entry_result(h.instructions@, header_body(*h), h.address_size as nat) is Ok,
        r is Err ==> r == Err::<(), FrameError>(
            entry_result(h.instructions@, header_body(*h), h.address_size as nat)->Err_0,
        ),
        r is Ok ==> final(out)@ == old(out)@ + entry_result(
            h.instructions@,
            header_body(*h),
            h.address_size as nat,
        )->Ok_0,
{
    let mut body: Vec<u8> = Vec::new();
    write_le(&mut body, CIE_ID as u64, 4);
    body.push(CIE_VERSION);
    // an empty augmentation string
    body.push(0u8);
    body.push(h.address_size);
    body.push(0u8);
    write_uleb128(&mut body, h.code_alignment_factor as u64);
    write_sleb128(&mut body, h.data_alignment_factor as i64);
    write_uleb128(&mut body, h.return_address_register as u64);
    let w = write_instructions(&mut body, &h.instructions);
    if w.is_err() {
        return w;
    }
    assert(body@ == header_body(*h));
    write_entry(out, body, h.address_size)
}

/// Appends the entry of function `f`; on success returns the offset of its
/// address placeholder.
fn write_function_entry(out: &mut Vec<u8>, address_size: u8, f: &UnwindInfo) -> (r: Result<
    usize,
    FrameError,
>)
    requires
        address_size == 4 || address_size == 8,
    ensures
        r is Ok <==> entry_result(
            f.instructions@,
            function_body(address_size, *f),
            address_size as nat,
        ) is Ok,
        r is Err ==> r == Err::<usize, FrameError>(
            entry_result(
                f.instructions@,
                function_body(address_size, *f),
                address_size as nat,
            )->Err_0,
        ),
        r is Ok ==> final(out)@ == old(out)@ + entry_result(
            f.instructions@,
            function_body(address_size, *f),
            address_size as nat,
        )->Ok_0,
        r is Ok ==> r->Ok_0 == old(out)@.len() + 8,
{
    let mut body: Vec<u8> = Vec::new();
    write_le(&mut body, 0, 4);
    write_le(&mut body, 0, address_size);
    write_le(&mut body, f.len as u64, address_size);
    let w = write_instructions(&mut body, &f.instructions);
    if w.is_err() {
        return Err(FrameError::AdvanceTooLarge);
    }
    assert(body@ == function_body(address_size, *f));
    let start = out.len();
    match write_entry(out, body, address_size) {
        Ok(()) => {
            let end = out.len();
            proof {
                lemma_le_bytes_len(0, 4);
                lemma_le_bytes_len(entry_length(body@, address_size as nat), 4);
            }
            assert(end >= start + 8);
            Ok(start + 8)
        },
        Err(e) => Err(e),
    }
}

impl FrameTable {
    /// Serializes the header entry, then each function entry in order, and
    /// lists for each function entry the offset of its address placeholder.
    /// Addresses are never resolved here: the placeholders hold zero.
    pub fn encode(&self) -> (r: Result<EncodedFrameTable, FrameError>)
        requires
            self.header.wf(),
        ensures
            r is Ok <==> table_result(*self) is Ok,
            r is Err ==> r->Err_0 == table_result(*self)->Err_0,
            r is Ok ==> r->Ok_0.bytes@ == table_result(*self)->Ok_0.0,
            r is Ok ==> r->Ok_0.relocations@.map_values(|x: usize| x as nat) == table_result(
                *self,
            )->Ok_0.1,
    {
        let a = self.header.address_size;
        let mut bytes: Vec<u8> = Vec::new();
        match write_header_entry(&mut bytes, &self.header) {
            Ok(()) => {},
            Err(e) => return Err(e),
        }
        let ghost cie = bytes@;
        let mut relocations: Vec<usize> = Vec::new();
        let mut k: usize = 0;
        while k < self.entries.len()
            invariant
                k <= self.entries@.len(),
                a == self.header.address_size,
                self.header.wf(),
                entry_result(self.header.instructions@, header_body(self.header), a as nat) == Ok::<
                    Seq<u8>,
                    FrameError,
                >(cie),
                functions_result(a, self.entries@.subrange(0, k as int), cie.len()) is Ok,
                bytes@ == cie + functions_result(
                    a,
                    self.entries@.subrange(0, k as int),
                    cie.len(),
                )->Ok_0.0,
                relocations@.map_values(|x: usize| x as nat) == functions_result(
                    a,
                    self.entries@.subrange(0, k as int),
                    cie.len(),
                )->Ok_0.1,
            decreases self.entries@.len() - k,
        {
            let ghost prefix = self.entries@.subrange(0, k as int);
            let ghost next = self.entries@.subrange(0, k + 1);
            assert(next.drop_last() == prefix);
            assert(next.last() == self.entries@[k as int]);
            let ghost relocs_before = relocations@;
            match write_function_entry(&mut bytes, a, &self.entries[k]) {
                Ok(at) => {
                    relocations.push(at);
                    assert(relocations@.map_values(|x: usize| x as nat) == relocs_before.map_values(
                        |x: usize| x as nat,
                    ).push(at as nat));
                },
                Err(e) => {
                    proof {
                        lemma_functions_result_err_extends(a, self.entries@, k as int + 1, cie.len());
                    }
                    return Err(e);
                },
            }
            k = k + 1;
        }
        assert(self.entries@.subrange(0, k as int) == self.entries@);
        Ok(EncodedFrameTable { bytes, relocations })
    }
}

/// Once a prefix of the functions fails, the whole sequence fails the same way.
proof fn lemma_functions_result_err_extends(address_size: u8, fs: Seq<UnwindInfo>, n: int, base: nat)
    requires
        0 <= n <= fs.len(),
        functions_result(address_size, fs.subrange(0, n), base) is Err,
    ensures
        functions_result(address_size, fs, base) == functions_result(
            address_size,
            fs.subrange(0, n),
            base,
        ),
    decreases fs.len() - n,
{
    if n < fs.len() {
        let next = fs.subrange(0, n + 1);
        assert(next.drop_last() == fs.subrange(0, n));
        lemma_functions_result_err_extends(address_size, fs, n + 1, base);
    } else {
        assert(fs.subrange(0, n) == fs);
    }
}

/// Whether two function entries hold the same instructions and length.
pub open spec fn same_entry(a: UnwindInfo, b: UnwindInfo) -> bool {
    a.instructions@ == b.instructions@ && a.len == b.len
}

/// Whether two tables hold the same header and the same function entries.
pub open spec fn same_contents(t1: FrameTable, t2: FrameTable) -> bool {
    &&& t1.header.address_size == t2.header.address_size
    &&& t1.header.code_alignment_factor == t2.header.code_alignment_factor
    &&& t1.header.data_alignment_factor == t2.header.data_alignment_factor
    &&& t1.header.return_address_register == t2.header.return_address_register
    &&& t1.header.instructions@ == t2.header.instructions@
    &&& t1.entries@.len() == t2.entries@.len()
    &&& forall|i: int|
        0 <= i < t1.entries@.len() ==> same_entry(#[trigger] t1.entries@[i], t2.entries@[i])
}

proof fn lemma_functions_result_same(
    address_size: u8,
    fs1: Seq<UnwindInfo>,
    fs2: Seq<UnwindInfo>,
    base: nat,
)
    requires
        fs1.len() == fs2.len(),
        forall|i: int| 0 <= i < fs1.len() ==> same_entry(#[trigger] fs1[i], fs2[i]),
    ensures
        functions_result(address_size, fs1, base) == functions_result(address_size, fs2, base),
    decreases fs1.len(),
{
    if fs1.len() > 0 {
        assert forall|i: int| 0 <= i < fs1.drop_last().len() implies same_entry(
            #[trigger] fs1.drop_last()[i],
            fs2.drop_last()[i],
        ) by {
            assert(same_entry(fs1[i], fs2[i]));
        }
        lemma_functions_result_same(address_size, fs1.drop_last(), fs2.drop_last(), base);
        assert(same_entry(fs1[fs1.len() - 1], fs2[fs2.len() - 1]));
    }
}

/// Encoding is deterministic: two tables with the same header and the same
/// function entries give byte-identical output and the same relocations, or
/// the same failure.
pub proof fn law_encoding_deterministic(t1: FrameTable, t2: FrameTable)
    requires
        same_contents(t1, t2),
    ensures
        table_result(t1) == table_result(t2),
{
    assert(header_body(t1.header) == header_body(t2.header));
    lemma_functions_result_same(
        t1.header.address_size,
        t1.entries@,
        t2.entries@,
        frame_entry(header_body(t1.header), t1.header.address_size as nat).len(),
    );
}

/// Every entry's length field holds the entry's length without the field
/// itself, and every entry's length is a multiple of the address size.
pub proof fn law_entry_framing(body: Seq<u8>, align: nat)
    requires
        align > 0,
    ensures
        frame_entry(body, align).len() == 4 + entry_length(body, align),
        frame_entry(body, align).len() % align == 0,
        frame_entry(body, align).subrange(0, 4) == le_bytes(
            (frame_entry(body, align).len() - 4) as nat,
            4,
        ),
        frame_entry(body, align).subrange(4, 4 + body.len() as int) == body,
{
    lemma_le_bytes_len(entry_length(body, align), 4);
    let e = frame_entry(body, align);
    let total = 4 + body.len();
    let pad = pad_len(total, align);
    assert((total + pad) % align == 0) by (nonlinear_arith)
        requires
            align > 0,
            pad == ((align as int - (total % align) as int) % (align as int)),
    ;
    assert(e.subrange(0, 4) == le_bytes(entry_length(body, align), 4));
    assert(e.subrange(4, 4 + body.len() as int) == body);
}

/// A function without instructions still gets a complete entry: the header
/// entry's offset, the address placeholder and the code length, padded.
pub proof fn law_empty_function_entry(address_size: u8, f: UnwindInfo)
    requires
        address_size == 4 || address_size == 8,
        f.instructions@.len() == 0,
    ensures
        function_body(address_size, f).len() == 4 + 2 * address_size,
        entry_result(f.instructions@, function_body(address_size, f), address_size as nat) == Ok::<
            Seq<u8>,
            FrameError,
        >(frame_entry(function_body(address_size, f), address_size as nat)),
        frame_entry(function_body(address_size, f), address_size as nat).len() == 4 + 4 + 2
            * address_size,
{
    lemma_le_bytes_len(0, 4);
    lemma_le_bytes_len(0, address_size as nat);
    lemma_le_bytes_len(f.len as nat, address_size as nat);
    lemma_le_bytes_len(entry_length(function_body(address_size, f), address_size as nat), 4);
    assert(encode_instructions(f.instructions@) == Seq::<u8>::empty());
    let body = function_body(address_size, f);
    assert(body.len() == 4 + 2 * address_size);
    if address_size == 4 {
        assert(4 + body.len() == 16);
        assert(pad_len(16, 4) == 0) by (nonlinear_arith);
    } else {
        assert(4 + body.len() == 24);
        assert(pad_len(24, 8) == 0) by (nonlinear_arith);
    }
}

proof fn lemma_functions_result_encodable(address_size: u8, fs: Seq<UnwindInfo>, base: nat)
    requires
        functions_result(address_size, fs, base) is Ok,
    ensures
        forall|i: int| 0 <= i < fs.len() ==> all_encodable((#[trigger] fs[i]).instructions@),
    decreases fs.len(),
{
    if fs.len() > 0 {
        lemma_functions_result_encodable(address_size, fs.drop_last(), base);
        assert forall|i: int| 0 <= i < fs.len() implies all_encodable(
            (#[trigger] fs[i]).instructions@,
        ) by {
            if i < fs.len() - 1 {
                assert(fs[i] == fs.drop_last()[i]);
            }
        }
    }
}

/// No encoded table holds an advance of 64 or more: a table with such an
/// advance fails to encode.
pub proof fn law_no_large_advance(t: FrameTable)
    ensures
        table_result(t) is Ok ==> all_encodable(t.header.instructions@) && forall|i: int|
            0 <= i < t.entries@.len() ==> all_encodable((#[trigger] t.entries@[i]).instructions@),
{
    if table_result(t) is Ok {
        let cie = entry_result(
            t.header.instructions@,
            header_body(t.header),
            t.header.address_size as nat,
        )->Ok_0;
        lemma_functions_result_encodable(t.header.address_size, t.entries@, cie.len());
    }
}

} // verus!
