use vstd::prelude::*;

verus! {

/// The ULEB128 encoding of `v`: seven bits per byte, low bits first, the high
/// bit set on every byte but the last.
pub open spec fn uleb128(v: nat) -> Seq<u8>
    decreases v,
{
    if v < 128 {
        seq![v as u8]
    } else {
        seq![(v % 128 + 128) as u8] + uleb128(v / 128)
    }
}

/// The SLEB128 encoding of `v`: like ULEB128, on the two's complement value,
/// ending once the remaining bits are all copies of the sign bit.
pub open spec fn sleb128(v: int) -> Seq<u8>
    decreases (if v < 0 { -v } else { v }),
{
    if -64 <= v < 64 {
        seq![(v % 128) as u8]
    } else {
        seq![(v % 128 + 128) as u8] + sleb128(v / 128)
    }
}

/// Appends the ULEB128 encoding of `v` to `out`.
pub fn write_uleb128(out: &mut Vec<u8>, v: u64)
    ensures
        final(out)@ == old(out)@ + uleb128(v as nat),
{
    let mut rest: u64 = v;
    loop
        invariant
            out@ + uleb128(rest as nat) == old(out)@ + uleb128(v as nat),
        decreases rest,
    {
        if rest < 128 {
            out.push(rest as u8);
            return;
        }
        let ghost before = out@;
        out.push((rest % 128 + 128) as u8);
        assert(before + uleb128(rest as nat) == out@ + uleb128((rest / 128) as nat));
        rest = rest / 128;
    }
}

/// Appends the SLEB128 encoding of `v` to `out`.
pub fn write_sleb128(out: &mut Vec<u8>, v: i64)
    ensures
        final(out)@ == old(out)@ + sleb128(v as int),
{
    let mut rest: i64 = v;
    loop
        invariant
            out@ + sleb128(rest as int) == old(out)@ + sleb128(v as int),
        decreases (if rest < 0 { -(rest as int) } else { rest as int }),
    {
        // `rest` split as `q * 128 + low` with `0 <= low < 128`
        let q: i64 = if rest >= 0 {
            rest / 128
        } else {
            let m: i64 = -(rest + 1);
            -(m / 128) - 1
        };
        let low: i64 = rest - q * 128;
        assert(q as int == rest as int / 128 && low as int == rest as int % 128) by (nonlinear_arith)
            requires
                rest >= 0 ==> q == rest / 128,
                rest < 0 ==> q == -((-(rest + 1)) / 128) - 1,
                low == rest - q * 128,
        ;
        if -64 <= rest && rest < 64 {
            out.push(low as u8);
            return;
        }
        let ghost before = out@;
        out.push((low + 128) as u8);
        assert(before + sleb128(rest as int) == out@ + sleb128(q as int));
        rest = q;
    }
}

} // verus!
