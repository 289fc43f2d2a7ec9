use vstd::prelude::*;

use crate::buffer_reader::{be_value, reads_fail, widths_sum};
use crate::buffer_writter::{be_bytes, lemma_be_bytes_len, lemma_be_value_of_bytes, pow256};
use crate::robot_to_driverstation::{
    ends_at, fixed_fail, fixed_then_end, image_tag_bytes, kind_code, lib_tag_bytes,
    long_str_read, long_str_wire, message_read, message_wire, num_at, short_str_read,
    short_str_wire, str_bytes, str_read, version_read, zeros_fail, MessageKindV, MsgOutcome,
    VersionInfoV,
};
use crate::robot_to_driverstation::error::{
    errors_code, errors_from_code, law_errors_code_roundtrip, law_warnings_code_roundtrip,
    warnings_code, warnings_from_code, Errors, Warnings,
};

verus! {

/// The bytes of a string read back give the string.
proof fn lemma_str_read_back(d: Seq<u8>, p: nat, m: Seq<char>)
    requires
        p + str_bytes(m).len() <= d.len(),
        d.subrange(p as int, p + str_bytes(m).len() as int) == str_bytes(m),
    ensures
        str_read(d, p, str_bytes(m).len()) == MsgOutcome::Done(m, p + str_bytes(m).len()),
{
    vstd::utf8::encode_utf8_valid_utf8(m);
    vstd::utf8::encode_utf8_decode_utf8(m);
}

/// A number written in `w` bytes, below `256^w`, reads back.
proof fn lemma_num_back(d: Seq<u8>, p: nat, v: nat, w: nat)
    requires
        p + w <= d.len(),
        d.subrange(p as int, (p + w) as int) == be_bytes(v, w),
        v < pow256(w),
    ensures
        num_at(d, p, w) == v,
{
    lemma_be_value_of_bytes(v, w);
    vstd::arithmetic::div_mod::lemma_small_mod(v, pow256(w));
}

proof fn lemma_pow256_small()
    ensures
        pow256(1) == 256,
        pow256(2) == 65536,
        pow256(4) == 0x1_0000_0000,
{
    reveal_with_fuel(pow256, 5);
}

/// A run of fixed-width reads that fits does not fail.
proof fn lemma_fixed_fits(len: nat, p: nat, ws: Seq<nat>)
    requires
        p + widths_sum(ws) <= len,
    ensures
        fixed_fail(len, p, ws) is None,
    decreases ws.len(),
{
    if ws.len() > 0 {
        lemma_fixed_fits(len, p + ws[0], ws.skip(1));
    }
}

/// The two-byte faults messages read back.
proof fn lemma_faults_roundtrip(k: MessageKindV)
    requires
        k is DisableFaults || k is RailFaults || k is UnderlineAnd5VDisable,
    ensures
        message_read(message_wire(k), 0) == MsgOutcome::Done(k, message_wire(k).len()),
{
    let w = message_wire(k);
    lemma_pow256_small();
    reveal_with_fuel(widths_sum, 5);
    match k {
        MessageKindV::DisableFaults(a, b) => {
            lemma_be_bytes_len(a as nat, 2);
            lemma_be_bytes_len(b as nat, 2);
            assert(w.subrange(1, 3) =~= be_bytes(a as nat, 2));
            assert(w.subrange(3, 5) =~= be_bytes(b as nat, 2));
            lemma_num_back(w, 1, a as nat, 2);
            lemma_num_back(w, 3, b as nat, 2);
            lemma_fixed_fits(w.len(), 1, seq![2nat, 2nat]);
        },
        MessageKindV::RailFaults(a, b, c) => {
            lemma_be_bytes_len(a as nat, 2);
            lemma_be_bytes_len(b as nat, 2);
            lemma_be_bytes_len(c as nat, 2);
            assert(w.subrange(1, 3) =~= be_bytes(a as nat, 2));
            assert(w.subrange(3, 5) =~= be_bytes(b as nat, 2));
            assert(w.subrange(5, 7) =~= be_bytes(c as nat, 2));
            lemma_num_back(w, 1, a as nat, 2);
            lemma_num_back(w, 3, b as nat, 2);
            lemma_num_back(w, 5, c as nat, 2);
            lemma_fixed_fits(w.len(), 1, seq![2nat, 2nat, 2nat]);
        },
        MessageKindV::UnderlineAnd5VDisable(a, b, c, e) => {
            lemma_be_bytes_len(a as nat, 2);
            assert(w.subrange(1, 3) =~= be_bytes(a as nat, 2));
            lemma_num_back(w, 1, a as nat, 2);
            lemma_fixed_fits(w.len(), 1, seq![2nat, 1nat, 1nat, 1nat]);
        },
        _ => {},
    }
}

/// The messages that carry only a string, or a time, a number and a string,
/// read back.
proof fn lemma_text_roundtrip(k: MessageKindV)
    requires
        k is ZeroCode || k is Message,
    ensures
        message_read(message_wire(k), 0) == MsgOutcome::Done(k, message_wire(k).len()),
{
    let w = message_wire(k);
    lemma_pow256_small();
    reveal_with_fuel(widths_sum, 3);
    match k {
        MessageKindV::ZeroCode(m) => {
            assert(w.subrange(1, w.len() as int) =~= str_bytes(m));
            lemma_str_read_back(w, 1, m);
        },
        MessageKindV::Message(ms, n, m) => {
            lemma_be_bytes_len(ms as nat, 4);
            lemma_be_bytes_len(n as nat, 2);
            assert(w.subrange(1, 5) =~= be_bytes(ms as nat, 4));
            assert(w.subrange(5, 7) =~= be_bytes(n as nat, 2));
            lemma_num_back(w, 1, ms as nat, 4);
            lemma_num_back(w, 5, n as nat, 2);
            lemma_fixed_fits(w.len(), 1, seq![4nat, 2nat]);
            assert(w.subrange(7, w.len() as int) =~= str_bytes(m));
            lemma_str_read_back(w, 7, m);
        },
        _ => {},
    }
}

/// A string after its one-byte length reads back, when it fits the length.
proof fn lemma_short_str_back(d: Seq<u8>, p: nat, m: Seq<char>)
    requires
        str_bytes(m).len() <= 255,
        p + 1 + str_bytes(m).len() <= d.len(),
        d.subrange(p as int, p + 1 + str_bytes(m).len() as int) == short_str_wire(m),
    ensures
        short_str_read(d, p) == MsgOutcome::Done(m, p + 1 + str_bytes(m).len()),
{
    let n = str_bytes(m).len();
    assert(d[p as int] == d.subrange(p as int, p + 1 + n as int)[0]);
    assert(d.subrange(p + 1 as int, p + 1 + n as int) =~= d.subrange(p as int, p + 1 + n as int).subrange(
        1,
        1 + n as int,
    ));
    assert(short_str_wire(m).subrange(1, 1 + n as int) =~= str_bytes(m));
    lemma_str_read_back(d, p + 1, m);
}

/// Bytes below 128 are UTF-8, one character each.
proof fn lemma_ascii_valid(s: Seq<u8>)
    requires
        forall|i: int| 0 <= i < s.len() ==> s[i] <= 0x7f,
    ensures
        vstd::utf8::valid_utf8(s),
    decreases s.len(),
{
    if s.len() > 0 {
        let b = s[0];
        assert(b & 0x7f <= 0x7f) by (bit_vector);
        assert(vstd::utf8::pop_first_scalar(s) =~= s.drop_first());
        lemma_ascii_valid(s.drop_first());
    }
}

/// The tags a version message names are UTF-8.
proof fn lemma_tags_valid()
    ensures
        vstd::utf8::valid_utf8(lib_tag_bytes()),
        vstd::utf8::valid_utf8(image_tag_bytes()),
{
    lemma_ascii_valid(lib_tag_bytes());
    lemma_ascii_valid(image_tag_bytes());
}

/// Whether a version reads back: a PDP version carries two bytes its read
/// does not take, and a string must fit its one-byte length.
pub open spec fn version_roundtrips(v: VersionInfoV) -> bool {
    match v {
        VersionInfoV::PDP(..) => false,
        VersionInfoV::LibCVersion(m) => str_bytes(m).len() <= 255,
        VersionInfoV::ImageVersion(m) => str_bytes(m).len() <= 255,
        VersionInfoV::Empty(m) => str_bytes(m).len() <= 255,
        _ => true,
    }
}

/// The version messages of a CAN Talon or a PCM read back.
proof fn lemma_version_device(v: VersionInfoV)
    requires
        v is CANTalon || v is PCM,
    ensures
        message_read(message_wire(MessageKindV::VersionInfo(v)), 0) == MsgOutcome::Done(
            MessageKindV::VersionInfo(v),
            message_wire(MessageKindV::VersionInfo(v)).len(),
        ),
{
    let w = message_wire(MessageKindV::VersionInfo(v));
    lemma_pow256_small();
    reveal_with_fuel(widths_sum, 3);
    reveal_with_fuel(be_bytes, 3);
    let a = match v {
        VersionInfoV::CANTalon(a, _) => a,
        VersionInfoV::PCM(a, _) => a,
        _ => 0,
    };
    lemma_be_bytes_len(a as nat, 2);
    assert(w.subrange(2, 4) =~= be_bytes(a as nat, 2));
    lemma_num_back(w, 2, a as nat, 2);
    lemma_fixed_fits(w.len(), 2, seq![2nat, 1nat]);
    assert(w[5] == 0 && w[6] == 0);
    assert(zeros_fail(w, 5, 2) is None);
}

/// A version message with no tag reads back.
proof fn lemma_version_empty(m: Seq<char>)
    requires
        str_bytes(m).len() <= 255,
    ensures
        message_read(message_wire(MessageKindV::VersionInfo(VersionInfoV::Empty(m))), 0)
            == MsgOutcome::Done(
            MessageKindV::VersionInfo(VersionInfoV::Empty(m)),
            message_wire(MessageKindV::VersionInfo(VersionInfoV::Empty(m))).len(),
        ),
{
    let w = message_wire(MessageKindV::VersionInfo(VersionInfoV::Empty(m)));
    let n = str_bytes(m).len();
    assert(zeros_fail(w, 2, 3) is None);
    vstd::utf8::encode_utf8_valid_utf8(Seq::<char>::empty());
    vstd::utf8::encode_utf8_decode_utf8(Seq::<char>::empty());
    assert(str_bytes(Seq::<char>::empty()) =~= Seq::<u8>::empty());
    assert(w.subrange(6, 6) =~= Seq::<u8>::empty());
    assert(short_str_read(w, 5) == MsgOutcome::Done(Seq::<char>::empty(), 6nat));
    assert(w.subrange(6, 7 + n as int) =~= short_str_wire(m));
    lemma_short_str_back(w, 6, m);
}

/// A library version message reads back.
proof fn lemma_version_lib(m: Seq<char>)
    requires
        str_bytes(m).len() <= 255,
    ensures
        message_read(message_wire(MessageKindV::VersionInfo(VersionInfoV::LibCVersion(m))), 0)
            == MsgOutcome::Done(
            MessageKindV::VersionInfo(VersionInfoV::LibCVersion(m)),
            message_wire(MessageKindV::VersionInfo(VersionInfoV::LibCVersion(m))).len(),
        ),
{
    let w = message_wire(MessageKindV::VersionInfo(VersionInfoV::LibCVersion(m)));
    let n = str_bytes(m).len();
    reveal_with_fuel(be_bytes, 3);
    lemma_tags_valid();
    assert(zeros_fail(w, 2, 3) is None);
    assert(w.subrange(6, 21) =~= lib_tag_bytes());
    assert(w.subrange(21, 22 + n as int) =~= short_str_wire(m));
    lemma_short_str_back(w, 21, m);
    assert(lib_tag_bytes() != image_tag_bytes()) by {
        assert(lib_tag_bytes().len() != image_tag_bytes().len());
    }
}

/// An image version message reads back.
proof fn lemma_version_image(m: Seq<char>)
    requires
        str_bytes(m).len() <= 255,
    ensures
        message_read(message_wire(MessageKindV::VersionInfo(VersionInfoV::ImageVersion(m))), 0)
            == MsgOutcome::Done(
            MessageKindV::VersionInfo(VersionInfoV::ImageVersion(m)),
            message_wire(MessageKindV::VersionInfo(VersionInfoV::ImageVersion(m))).len(),
        ),
{
    let w = message_wire(MessageKindV::VersionInfo(VersionInfoV::ImageVersion(m)));
    let n = str_bytes(m).len();
    reveal_with_fuel(be_bytes, 3);
    lemma_tags_valid();
    assert(zeros_fail(w, 2, 3) is None);
    assert(w.subrange(6, 19) =~= image_tag_bytes());
    assert(w.subrange(19, 20 + n as int) =~= short_str_wire(m));
    lemma_short_str_back(w, 19, m);
}

/// A string after its two-byte length reads back, when it fits the length.
proof fn lemma_long_str_back(d: Seq<u8>, p: nat, m: Seq<char>)
    requires
        str_bytes(m).len() <= 0xFFFF,
        p + 2 + str_bytes(m).len() <= d.len(),
        d.subrange(p as int, p + 2 + str_bytes(m).len() as int) == long_str_wire(m),
    ensures
        long_str_read(d, p) == MsgOutcome::Done(m, p + 2 + str_bytes(m).len()),
{
    let n = str_bytes(m).len();
    lemma_pow256_small();
    assert((n as u16) as nat == n);
    lemma_be_bytes_len(n, 2);
    let piece = d.subrange(p as int, p + 2 + n as int);
    assert(d.subrange(p as int, p + 2 as int) =~= piece.subrange(0, 2));
    assert(piece.subrange(0, 2) =~= be_bytes(n, 2));
    lemma_num_back(d, p, n, 2);
    assert(d.subrange(p + 2 as int, p + 2 + n as int) =~= piece.subrange(2, 2 + n as int));
    assert(piece.subrange(2, 2 + n as int) =~= str_bytes(m));
    lemma_str_read_back(d, p + 2, m);
}

/// Whether an error or warning reads back: its strings fit their two-byte
/// lengths, and its code names it again (an unknown code that names a known
/// error or warning does not).
pub open spec fn report_roundtrips(k: MessageKindV) -> bool {
    match k {
        MessageKindV::Error(_, _, e, m, l, st) => {
            &&& (e matches Errors::Unknown(c) ==> errors_from_code(c) is Unknown)
            &&& str_bytes(m).len() <= 0xFFFF
            &&& str_bytes(l).len() <= 0xFFFF
            &&& str_bytes(st).len() <= 0xFFFF
        },
        MessageKindV::Warning(_, _, w, m, l, st) => {
            &&& (w matches Warnings::Unknown(c) ==> warnings_from_code(c) is Unknown)
            &&& str_bytes(m).len() <= 0xFFFF
            &&& str_bytes(l).len() <= 0xFFFF
            &&& str_bytes(st).len() <= 0xFFFF
        },
        _ => false,
    }
}

/// An error (flag 1) or warning (flag 0) on the wire.
pub open spec fn report_wire(
    ms: u32,
    n: u16,
    code: i32,
    flag: u8,
    m: Seq<char>,
    l: Seq<char>,
    st: Seq<char>,
) -> Seq<u8> {
    seq![0x0Bu8] + (be_bytes(ms as nat, 4) + be_bytes(n as nat, 2) + be_bytes(1, 2) + be_bytes(
        (code as u32) as nat,
        4,
    ) + seq![flag] + long_str_wire(m) + long_str_wire(l) + long_str_wire(st))
}

/// Where each field of an error or warning sits on the wire.
proof fn lemma_report_layout(
    ms: u32,
    n: u16,
    code: i32,
    flag: u8,
    m: Seq<char>,
    l: Seq<char>,
    st: Seq<char>,
)
    ensures
        ({
            let w = report_wire(ms, n, code, flag, m, l, st);
            let lm = str_bytes(m).len() as int;
            let ll = str_bytes(l).len() as int;
            let ls = str_bytes(st).len() as int;
            &&& w.len() == 20 + lm + ll + ls
            &&& w[0] == 0x0B
            &&& w.subrange(1, 5) == be_bytes(ms as nat, 4)
            &&& w.subrange(5, 7) == be_bytes(n as nat, 2)
            &&& w.subrange(7, 9) == be_bytes(1, 2)
            &&& w.subrange(9, 13) == be_bytes((code as u32) as nat, 4)
            &&& w[13] == flag
            &&& w.subrange(14, 16 + lm) == long_str_wire(m)
            &&& w.subrange(16 + lm, 18 + lm + ll) == long_str_wire(l)
            &&& w.subrange(18 + lm + ll, 20 + lm + ll + ls) == long_str_wire(st)
        }),
{
    let lm = str_bytes(m).len() as int;
    let ll = str_bytes(l).len() as int;
    let ls = str_bytes(st).len() as int;
    lemma_be_bytes_len(ms as nat, 4);
    lemma_be_bytes_len(n as nat, 2);
    lemma_be_bytes_len(1, 2);
    lemma_be_bytes_len((code as u32) as nat, 4);
    lemma_be_bytes_len((lm as u16) as nat, 2);
    lemma_be_bytes_len((ll as u16) as nat, 2);
    lemma_be_bytes_len((ls as u16) as nat, 2);
    let w = report_wire(ms, n, code, flag, m, l, st);
    assert(w.subrange(1, 5) =~= be_bytes(ms as nat, 4));
    assert(w.subrange(5, 7) =~= be_bytes(n as nat, 2));
    assert(w.subrange(7, 9) =~= be_bytes(1, 2));
    assert(w.subrange(9, 13) =~= be_bytes((code as u32) as nat, 4));
    assert(w.subrange(14, 16 + lm) =~= long_str_wire(m));
    assert(w.subrange(16 + lm, 18 + lm + ll) =~= long_str_wire(l));
    assert(w.subrange(18 + lm + ll, 20 + lm + ll + ls) =~= long_str_wire(st));
}

/// The strings of an error or warning read back, one after another, to the
/// end of the message.
proof fn lemma_report_strings_back(w: Seq<u8>, m: Seq<char>, l: Seq<char>, st: Seq<char>)
    requires
        str_bytes(m).len() <= 0xFFFF,
        str_bytes(l).len() <= 0xFFFF,
        str_bytes(st).len() <= 0xFFFF,
        ({
            let lm = str_bytes(m).len() as int;
            let ll = str_bytes(l).len() as int;
            let ls = str_bytes(st).len() as int;
            &&& w.len() == 20 + lm + ll + ls
            &&& w.subrange(14, 16 + lm) == long_str_wire(m)
            &&& w.subrange(16 + lm, 18 + lm + ll) == long_str_wire(l)
            &&& w.subrange(18 + lm + ll, 20 + lm + ll + ls) == long_str_wire(st)
        }),
    ensures
        long_str_read(w, 14) == MsgOutcome::Done(m, (16 + str_bytes(m).len()) as nat),
        long_str_read(w, (16 + str_bytes(m).len()) as nat) == MsgOutcome::Done(
            l,
            (18 + str_bytes(m).len() + str_bytes(l).len()) as nat,
        ),
        long_str_read(w, (18 + str_bytes(m).len() + str_bytes(l).len()) as nat)
            == MsgOutcome::Done(st, w.len()),
{
    let lm = str_bytes(m).len() as int;
    let ll = str_bytes(l).len() as int;
    lemma_long_str_back(w, 14, m);
    lemma_long_str_back(w, (16 + lm) as nat, l);
    lemma_long_str_back(w, (18 + lm + ll) as nat, st);
}

/// The fixed fields of an error or warning read back.
proof fn lemma_report_fields_back(w: Seq<u8>, ms: u32, n: u16, code: i32)
    requires
        w.len() >= 20,
        w.subrange(1, 5) == be_bytes(ms as nat, 4),
        w.subrange(5, 7) == be_bytes(n as nat, 2),
        w.subrange(7, 9) == be_bytes(1, 2),
        w.subrange(9, 13) == be_bytes((code as u32) as nat, 4),
    ensures
        num_at(w, 1, 4) == ms,
        num_at(w, 5, 2) == n,
        num_at(w, 7, 2) == 1,
        ((num_at(w, 9, 4) as u32) as i32) == code,
        fixed_fail(w.len(), 1, seq![4nat, 2nat]) is None,
        fixed_fail(w.len(), 9, seq![4nat, 1nat]) is None,
{
    lemma_pow256_small();
    reveal_with_fuel(widths_sum, 3);
    lemma_num_back(w, 1, ms as nat, 4);
    lemma_num_back(w, 5, n as nat, 2);
    reveal_with_fuel(be_bytes, 3);
    lemma_num_back(w, 7, 1, 2);
    lemma_num_back(w, 9, (code as u32) as nat, 4);
    assert(((code as u32) as i32) == code) by (bit_vector);
    lemma_fixed_fits(w.len(), 1, seq![4nat, 2nat]);
    lemma_fixed_fits(w.len(), 9, seq![4nat, 1nat]);
}

/// An error or warning on the wire reads back with the kind its flag names
/// and the error or warning its code names.
proof fn lemma_report_back(
    ms: u32,
    n: u16,
    code: i32,
    flag: u8,
    m: Seq<char>,
    l: Seq<char>,
    st: Seq<char>,
)
    requires
        flag == 0 || flag == 1,
        str_bytes(m).len() <= 0xFFFF,
        str_bytes(l).len() <= 0xFFFF,
        str_bytes(st).len() <= 0xFFFF,
    ensures
        message_read(report_wire(ms, n, code, flag, m, l, st), 0) == MsgOutcome::Done(
            if flag == 1 {
                MessageKindV::Error(ms, n, errors_from_code(code), m, l, st)
            } else {
                MessageKindV::Warning(ms, n, warnings_from_code(code), m, l, st)
            },
            report_wire(ms, n, code, flag, m, l, st).len(),
        ),
{
    let w = report_wire(ms, n, code, flag, m, l, st);
    lemma_report_layout(ms, n, code, flag, m, l, st);
    lemma_report_fields_back(w, ms, n, code);
    lemma_report_strings_back(w, m, l, st);
}

/// Error and warning messages read back.
proof fn lemma_report_roundtrip(k: MessageKindV)
    requires
        report_roundtrips(k),
    ensures
        message_read(message_wire(k), 0) == MsgOutcome::Done(k, message_wire(k).len()),
{
    match k {
        MessageKindV::Error(ms, n, e, m, l, st) => {
            law_errors_code_roundtrip(0, e);
            assert(message_wire(k) =~= report_wire(ms, n, errors_code(e), 1, m, l, st));
            lemma_report_back(ms, n, errors_code(e), 1, m, l, st);
        },
        MessageKindV::Warning(ms, n, wr, m, l, st) => {
            law_warnings_code_roundtrip(0, wr);
            assert(message_wire(k) =~= report_wire(ms, n, warnings_code(wr), 0, m, l, st));
            lemma_report_back(ms, n, warnings_code(wr), 0, m, l, st);
        },
        _ => {},
    }
}

/// Whether a message read back after it was written is the same message: not
/// a usage report, which has no wire form, nor a PDP version, whose read
/// leaves two bytes; with strings that fit their lengths and codes that name
/// their error or warning again.
pub open spec fn message_roundtrips(k: MessageKindV) -> bool {
    match k {
        MessageKindV::UsageReport(..) => false,
        MessageKindV::VersionInfo(v) => version_roundtrips(v),
        MessageKindV::Error(..) | MessageKindV::Warning(..) => report_roundtrips(k),
        _ => true,
    }
}

/// A console message written ([`message_wire`]) and read back
/// ([`message_read`]) is the same message, and the read takes all its bytes.
pub proof fn law_message_roundtrip(k: MessageKindV)
    requires
        message_roundtrips(k),
    ensures
        message_read(message_wire(k), 0) == MsgOutcome::Done(k, message_wire(k).len()),
{
    match k {
        MessageKindV::DisableFaults(..) | MessageKindV::RailFaults(..)
        | MessageKindV::UnderlineAnd5VDisable(..) => lemma_faults_roundtrip(k),
        MessageKindV::ZeroCode(..) | MessageKindV::Message(..) => lemma_text_roundtrip(k),
        MessageKindV::VersionInfo(v) => match v {
            VersionInfoV::Empty(m) => lemma_version_empty(m),
            VersionInfoV::LibCVersion(m) => lemma_version_lib(m),
            VersionInfoV::ImageVersion(m) => lemma_version_image(m),
            VersionInfoV::PDP(..) => {},
            _ => lemma_version_device(v),
        },
        MessageKindV::Error(..) | MessageKindV::Warning(..) => lemma_report_roundtrip(k),
        MessageKindV::UsageReport(..) => {},
    }
}

} // verus!
