//! Raymarine control frames as the server sends them: Quantum frames are a
//! two-byte lead, `0x28 0x00` and a small payload; RD frames a two-byte lead
//! and a fixed-layout payload. Values arrive in tenths, as for Navico.
use vstd::prelude::*;
use vstd::slice::slice_to_vec;
use crate::navico_command::{scaled_byte, unsigned, le_bytes};
use crate::text::same_text;

verus! {

/// Why a request has no frames.
#[derive(Debug, Clone, PartialEq, Eq)]
pub enum CommandError {
    /// The control has no command on this radar family.
    CannotSetControlType(String),
}

pub open spec fn one_byte_frame(lead: Seq<u8>, value: u8) -> Seq<u8> {
    lead + seq![0x28u8, 0x00, 0x00, value, 0x00, 0x00]
}

pub open spec fn two_byte_frame(lead: Seq<u8>, value: u16) -> Seq<u8> {
    lead + seq![0x28u8, 0x00, (value % 256) as u8, (value / 256) as u8, 0x00, 0x00]
}

pub open spec fn standard_frame(lead: Seq<u8>, value: u8) -> Seq<u8> {
    lead + seq![0x01u8, 0x00, 0x01, 0x00, 0x00, 0x00, 0x00, 0x00, 0x00, 0x00, 0x01, 0x00, 0x00, 0x00, 0x00, 0x00, 0x00, 0x00, value, 0x00, 0x00, 0x00]
}

pub open spec fn on_off_frame(lead: Seq<u8>, on_off: u8) -> Seq<u8> {
    lead + seq![0x01u8, 0x00, 0x01, 0x00, 0x00, 0x00, 0x01, 0x00, 0x00, 0x00, 0x00, 0x00, 0x00, 0x00, on_off, 0x00, 0x00, 0x00, 0x00, 0x00, 0x00, 0x00]
}

fn append(cmd: &mut Vec<u8>, data: &[u8])
    ensures
        final(cmd)@ == old(cmd)@ + data@,
{
    let mut i: usize = 0;
    while i < data.len()
        invariant
            i <= data@.len(),
            cmd@ == old(cmd)@ + data@.subrange(0, i as int),
        decreases data@.len() - i,
    {
        cmd.push(data[i]);
        i = i + 1;
        assert(cmd@ =~= old(cmd)@ + data@.subrange(0, i as int));
    }
    assert(data@.subrange(0, data@.len() as int) =~= data@);
}

/// Appends a Quantum one-byte command: lead, `0x28 0x00 0x00`, value, `0x00 0x00`.
pub fn one_byte_command(cmd: &mut Vec<u8>, lead: &[u8], value: u8)
    ensures
        final(cmd)@ == old(cmd)@ + one_byte_frame(lead@, value),
{
    append(cmd, lead);
    append(cmd, &[0x28, 0x00, 0x00, value, 0x00, 0x00]);
    assert(final(cmd)@ =~= old(cmd)@ + one_byte_frame(lead@, value));
}

/// Appends a Quantum two-byte command: lead, `0x28 0x00`, value
/// (little-endian), `0x00 0x00`.
pub fn two_byte_command(cmd: &mut Vec<u8>, lead: &[u8], value: u16)
    ensures
        final(cmd)@ == old(cmd)@ + two_byte_frame(lead@, value),
{
    append(cmd, lead);
    append(cmd, &[0x28, 0x00, (value % 256) as u8, (value / 256) as u8, 0x00, 0x00]);
    assert(final(cmd)@ =~= old(cmd)@ + two_byte_frame(lead@, value));
}

/// Appends an RD value command (value at payload offset 18).
pub fn standard_command(cmd: &mut Vec<u8>, lead: &[u8], value: u8)
    ensures
        final(cmd)@ == old(cmd)@ + standard_frame(lead@, value),
{
    append(cmd, lead);
    append(cmd, &[0x01, 0x00, 0x01, 0x00, 0x00, 0x00, 0x00, 0x00, 0x00, 0x00, 0x01, 0x00, 0x00, 0x00, 0x00, 0x00, 0x00, 0x00, value, 0x00, 0x00, 0x00]);
    assert(final(cmd)@ =~= old(cmd)@ + standard_frame(lead@, value));
}

/// Appends an RD on/off command (flag at payload offset 14).
pub fn on_off_command(cmd: &mut Vec<u8>, lead: &[u8], on_off: u8)
    ensures
        final(cmd)@ == old(cmd)@ + on_off_frame(lead@, on_off),
{
    append(cmd, lead);
    append(cmd, &[0x01, 0x00, 0x01, 0x00, 0x00, 0x00, 0x01, 0x00, 0x00, 0x00, 0x00, 0x00, 0x00, 0x00, on_off, 0x00, 0x00, 0x00, 0x00, 0x00, 0x00, 0x00]);
    assert(final(cmd)@ =~= old(cmd)@ + on_off_frame(lead@, on_off));
}

/// The value in whole units, truncated toward zero.
pub open spec fn whole(tenths: i32) -> int {
    if tenths < 0 { -((-(tenths as int)) / 10) } else { tenths as int / 10 }
}

fn whole_of(tenths: i32) -> (r: i64)
    ensures
        r == whole(tenths),
{
    if tenths < 0 { -((-(tenths as i64)) / 10) } else { tenths as i64 / 10 }
}

fn scaled_byte_of(tenths: i32) -> (r: u8)
    ensures
        r == scaled_byte(tenths),
{
    if tenths <= 0 {
        0
    } else {
        let s: i64 = (tenths as i64 * 255) / 1000;
        if s > 255 { 255 } else { s as u8 }
    }
}

/// Number of ranges, from the start, shorter than `meters`.
pub open spec fn count_shorter(ranges: Seq<i32>, meters: int, k: int) -> int
    decreases ranges.len() - k,
{
    if k < 0 || k >= ranges.len() {
        ranges.len() as int
    } else if ranges[k] >= meters {
        k
    } else {
        count_shorter(ranges, meters, k + 1)
    }
}

/// Range index for a requested value: a value below the number of ranges is
/// an index (its low byte), anything else meters, giving the first range
/// that reaches it.
pub open spec fn range_index(value: int, ranges: Seq<i32>) -> u8 {
    if value < ranges.len() {
        (((value % 256) + 256) % 256) as u8
    } else {
        count_shorter(ranges, value, 0) as u8
    }
}

fn range_index_of(value: i64, ranges: &[i32]) -> (r: u8)
    requires
        ranges@.len() <= 255,
        i32::MIN <= value <= i32::MAX,
    ensures
        r == range_index(value as int, ranges@),
{
    if value < ranges.len() as i64 {
        let m: i64 = (value + 2147483904) % 256;
        assert(m == ((value % 256) + 256) % 256) by (nonlinear_arith)
            requires
                m == (value + 2147483904) % 256,
                value + 2147483904 >= 0,
        {
        }
        return m as u8;
    }
    let mut i: usize = 0;
    while i < ranges.len()
        invariant
            i <= ranges@.len(),
            ranges@.len() <= 255,
            value >= ranges@.len(),
            count_shorter(ranges@, value as int, 0) == count_shorter(ranges@, value as int, i as int),
        decreases ranges@.len() - i,
    {
        if ranges[i] as i64 >= value {
            return i as u8;
        }
        i = i + 1;
    }
    i as u8
}

/// `tenths` saturated to 16 signed bits, as a two's-complement pattern.
pub open spec fn i16_pattern(tenths: i32) -> u16 {
    let c: int = if tenths < -32768 { -32768 } else if tenths > 32767 { 32767 } else { tenths as int };
    (if c < 0 { c + 65536 } else { c }) as u16
}

pub open spec fn quantum_frames(id: Seq<char>, tenths: i32, auto: bool, enabled: bool, ranges: Seq<i32>) -> Option<Seq<Seq<u8>>> {
    let a: u8 = if auto { 1 } else { 0 };
    let e: u8 = if enabled { 1 } else { 0 };
    let v = scaled_byte(tenths);
    if id == "power"@ {
        Some(seq![seq![0x01u8, 0x80, 0x01, 0x00, if whole(tenths) == 2 { 1u8 } else { 0u8 }, 0x00, 0x00, 0x00]])
    } else if id == "range"@ {
        Some(seq![one_byte_frame(seq![0x01u8, 0x01], range_index(whole(tenths), ranges))])
    } else if id == "gain"@ {
        if auto { Some(seq![one_byte_frame(seq![0x01u8, 0x03], a)]) }
        else { Some(seq![one_byte_frame(seq![0x01u8, 0x03], a), one_byte_frame(seq![0x02u8, 0x83], v)]) }
    } else if id == "colorGain"@ {
        if auto { Some(seq![one_byte_frame(seq![0x03u8, 0x03], a)]) }
        else { Some(seq![one_byte_frame(seq![0x03u8, 0x03], a), one_byte_frame(seq![0x04u8, 0x03], v)]) }
    } else if id == "sea"@ {
        if auto { Some(seq![one_byte_frame(seq![0x05u8, 0x03], a)]) }
        else { Some(seq![one_byte_frame(seq![0x05u8, 0x03], a), one_byte_frame(seq![0x06u8, 0x03], v)]) }
    } else if id == "rain"@ {
        if !enabled { Some(seq![one_byte_frame(seq![0x0Bu8, 0x03], e)]) }
        else { Some(seq![one_byte_frame(seq![0x0Bu8, 0x03], e), one_byte_frame(seq![0x0Cu8, 0x03], v)]) }
    } else if id == "targetExpansion"@ {
        Some(seq![one_byte_frame(seq![0x0Fu8, 0x03], v)])
    } else if id == "interferenceRejection"@ {
        Some(seq![one_byte_frame(seq![0x11u8, 0x03], v)])
    } else if id == "mode"@ {
        Some(seq![one_byte_frame(seq![0x14u8, 0x03], v)])
    } else if id == "bearingAlignment"@ {
        Some(seq![two_byte_frame(seq![0x01u8, 0x04], i16_pattern(tenths))])
    } else {
        None
    }
}

/// Frames that set the Quantum control `id` to `tenths` / 10, in sending
/// order (power: 2 is transmit). Controls without a Quantum command, such as
/// main bang suppression and no-transmit sectors, are errors.
pub fn quantum_set_control(id: &str, tenths: i32, auto: bool, enabled: bool, ranges: &[i32]) -> (r: Result<Vec<Vec<u8>>, CommandError>)
    requires
        ranges@.len() <= 255,
    ensures
        match r {
            Ok(frames) => quantum_frames(id@, tenths, auto, enabled, ranges@) is Some
                && frames@.len() == quantum_frames(id@, tenths, auto, enabled, ranges@)->Some_0.len()
                && forall|i: int| 0 <= i < frames@.len() ==> #[trigger] frames@[i]@
                    == quantum_frames(id@, tenths, auto, enabled, ranges@)->Some_0[i],
            Err(CommandError::CannotSetControlType(name)) => quantum_frames(id@, tenths, auto, enabled, ranges@) is None
                && name@ == id@,
        },
{
    let a: u8 = if auto { 1 } else { 0 };
    let e: u8 = if enabled { 1 } else { 0 };
    let v = scaled_byte_of(tenths);
    let ghost want = quantum_frames(id@, tenths, auto, enabled, ranges@);
    let mut out: Vec<Vec<u8>> = Vec::new();
    let mut cmd: Vec<u8> = Vec::new();
    if same_text(id, "power") {
        let p: u8 = if whole_of(tenths) == 2 { 1 } else { 0 };
        out.push(slice_to_vec(&[0x01u8, 0x80, 0x01, 0x00, p, 0x00, 0x00, 0x00]));
    } else if same_text(id, "range") {
        one_byte_command(&mut cmd, &[0x01, 0x01], range_index_of(whole_of(tenths), ranges));
        out.push(cmd);
    } else if same_text(id, "gain") || same_text(id, "colorGain") || same_text(id, "sea") {
        let (l1, l2): (u8, u8) = if same_text(id, "gain") { (0x01, 0x02) } else if same_text(id, "colorGain") { (0x03, 0x04) } else { (0x05, 0x06) };
        let second: u8 = if l1 == 0x01 { 0x83 } else { 0x03 };
        one_byte_command(&mut cmd, &[l1, 0x03], a);
        out.push(cmd);
        if !auto {
            let mut c2: Vec<u8> = Vec::new();
            one_byte_command(&mut c2, &[l2, second], v);
            out.push(c2);
        }
    } else if same_text(id, "rain") {
        one_byte_command(&mut cmd, &[0x0B, 0x03], e);
        out.push(cmd);
        if enabled {
            let mut c2: Vec<u8> = Vec::new();
            one_byte_command(&mut c2, &[0x0C, 0x03], v);
            out.push(c2);
        }
    } else if same_text(id, "targetExpansion") {
        one_byte_command(&mut cmd, &[0x0F, 0x03], v);
        out.push(cmd);
    } else if same_text(id, "interferenceRejection") {
        one_byte_command(&mut cmd, &[0x11, 0x03], v);
        out.push(cmd);
    } else if same_text(id, "mode") {
        one_byte_command(&mut cmd, &[0x14, 0x03], v);
        out.push(cmd);
    } else if same_text(id, "bearingAlignment") {
        let c: i32 = if tenths < -32768 { -32768 } else if tenths > 32767 { 32767 } else { tenths };
        let w: u16 = if c < 0 { (c + 65536) as u16 } else { c as u16 };
        two_byte_command(&mut cmd, &[0x01, 0x04], w);
        out.push(cmd);
    } else {
        return Err(CommandError::CannotSetControlType(String::from_str(id)));
    }
    proof {
        assert(want is Some);
        assert(out@.len() == want->Some_0.len());
        assert forall|i: int| 0 <= i < out@.len() implies #[trigger] out@[i]@ == want->Some_0[i] by {
            assert(out@[i]@ =~= want->Some_0[i]);
        }
    }
    Ok(out)
}

pub open spec fn rd_frames(id: Seq<char>, tenths: i32, auto: bool, ranges: Seq<i32>) -> Option<Seq<Seq<u8>>> {
    let a: u8 = if auto { 1 } else { 0 };
    let v = scaled_byte(tenths);
    if id == "power"@ {
        Some(seq![seq![0x01u8, 0x80, 0x01, 0x00, if whole(tenths) == 2 { 1u8 } else { 0u8 }, 0x00, 0x00, 0x00]])
    } else if id == "range"@ {
        Some(seq![seq![0x01u8, 0x81, 0x01, 0x00, 0x01, 0x00, 0x00, 0x00, range_index(whole(tenths), ranges), 0x00, 0x00, 0x00]])
    } else if id == "bearingAlignment"@ {
        Some(seq![seq![0x07u8, 0x82, 0x01, 0x00] + le_bytes(unsigned(tenths), 4)])
    } else if id == "gain"@ || id == "sea"@ || id == "rain"@ {
        let l = if id == "gain"@ { 0x01u8 } else if id == "sea"@ { 0x02u8 } else { 0x03u8 };
        if auto { Some(seq![on_off_frame(seq![l, 0x83], a)]) }
        else { Some(seq![on_off_frame(seq![l, 0x83], a), standard_frame(seq![l, 0x83], v)]) }
    } else if id == "ftc"@ {
        if auto { Some(seq![on_off_frame(seq![0x04u8, 0x83], 0)]) }
        else { Some(seq![on_off_frame(seq![0x04u8, 0x83], 1), standard_frame(seq![0x04u8, 0x83], v)]) }
    } else if id == "mainBangSuppression"@ {
        Some(seq![standard_frame(seq![0x01u8, 0x82], if auto { 0u8 } else { 1u8 })])
    } else if id == "displayTiming"@ {
        Some(seq![seq![0x02u8, 0x82, 0x01, 0x00, 0x01, 0x00, 0x00, 0x00, v, 0x00, 0x00, 0x00]])
    } else if id == "interferenceRejection"@ {
        Some(seq![seq![0x07u8, 0x83, 0x01, 0x00, v, 0x00, 0x00, 0x00]])
    } else {
        None
    }
}

/// Frames that set the RD control `id` to `tenths` / 10, in sending order.
/// FTC is an on/off switch driven by the inverted auto flag, as is main bang
/// suppression.
pub fn rd_set_control(id: &str, tenths: i32, auto: bool, ranges: &[i32]) -> (r: Result<Vec<Vec<u8>>, CommandError>)
    requires
        ranges@.len() <= 255,
    ensures
        match r {
            Ok(frames) => rd_frames(id@, tenths, auto, ranges@) is Some
                && frames@.len() == rd_frames(id@, tenths, auto, ranges@)->Some_0.len()
                && forall|i: int| 0 <= i < frames@.len() ==> #[trigger] frames@[i]@
                    == rd_frames(id@, tenths, auto, ranges@)->Some_0[i],
            Err(CommandError::CannotSetControlType(name)) => rd_frames(id@, tenths, auto, ranges@) is None
                && name@ == id@,
        },
{
    let a: u8 = if auto { 1 } else { 0 };
    let v = scaled_byte_of(tenths);
    let ghost want = rd_frames(id@, tenths, auto, ranges@);
    let mut out: Vec<Vec<u8>> = Vec::new();
    let mut cmd: Vec<u8> = Vec::new();
    if same_text(id, "power") {
        let p: u8 = if whole_of(tenths) == 2 { 1 } else { 0 };
        out.push(slice_to_vec(&[0x01u8, 0x80, 0x01, 0x00, p, 0x00, 0x00, 0x00]));
    } else if same_text(id, "range") {
        let index = range_index_of(whole_of(tenths), ranges);
        out.push(slice_to_vec(&[0x01u8, 0x81, 0x01, 0x00, 0x01, 0x00, 0x00, 0x00, index, 0x00, 0x00, 0x00]));
    } else if same_text(id, "bearingAlignment") {
        let w: u64 = if tenths < 0 { (tenths as i64 + 4294967296) as u64 } else { tenths as u64 };
        let b: [u8; 4] = [(w % 256) as u8, ((w / 256) % 256) as u8, ((w / 65536) % 256) as u8, ((w / 16777216) % 256) as u8];
        append(&mut cmd, &[0x07, 0x82, 0x01, 0x00]);
        append(&mut cmd, &b);
        proof {
            let u = unsigned(tenths);
            assert(w == u);
            assert(le_bytes(u, 4) =~= seq![(u % 256) as u8, ((u / 256) % 256) as u8, ((u / 256 / 256) % 256) as u8, ((u / 256 / 256 / 256) % 256) as u8]) by {
                reveal_with_fuel(le_bytes, 5);
            }
            assert(u / 256 / 256 == u / 65536) by (nonlinear_arith);
            assert(u / 256 / 256 / 256 == u / 16777216) by (nonlinear_arith);
        }
        out.push(cmd);
    } else if same_text(id, "gain") || same_text(id, "sea") || same_text(id, "rain") {
        let l: u8 = if same_text(id, "gain") { 0x01 } else if same_text(id, "sea") { 0x02 } else { 0x03 };
        on_off_command(&mut cmd, &[l, 0x83], a);
        out.push(cmd);
        if !auto {
            let mut c2: Vec<u8> = Vec::new();
            standard_command(&mut c2, &[l, 0x83], v);
            out.push(c2);
        }
    } else if same_text(id, "ftc") {
        let on_off: u8 = 1 - a;
        on_off_command(&mut cmd, &[0x04, 0x83], on_off);
        out.push(cmd);
        if on_off == 1 {
            let mut c2: Vec<u8> = Vec::new();
            standard_command(&mut c2, &[0x04, 0x83], v);
            out.push(c2);
        }
    } else if same_text(id, "mainBangSuppression") {
        standard_command(&mut cmd, &[0x01, 0x82], 1 - a);
        out.push(cmd);
    } else if same_text(id, "displayTiming") {
        out.push(slice_to_vec(&[0x02u8, 0x82, 0x01, 0x00, 0x01, 0x00, 0x00, 0x00, v, 0x00, 0x00, 0x00]));
    } else if same_text(id, "interferenceRejection") {
        out.push(slice_to_vec(&[0x07u8, 0x83, 0x01, 0x00, v, 0x00, 0x00, 0x00]));
    } else {
        return Err(CommandError::CannotSetControlType(String::from_str(id)));
    }
    proof {
        assert(want is Some);
        assert(out@.len() == want->Some_0.len());
        assert forall|i: int| 0 <= i < out@.len() implies #[trigger] out@[i]@ == want->Some_0[i] by {
            assert(out@[i]@ =~= want->Some_0[i]);
        }
    }
    Ok(out)
}

} // verus!
