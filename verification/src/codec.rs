//! The replay-log line codec.
//!
//! The log is line oriented: three header lines (decimal seed, version,
//! commit), then one line per record. A record is either a command or a
//! verification snapshot; a reader disambiguates by trial decode. The
//! grammar is fixed here by the spec-level parsers, which the executable
//! parsers match exactly: a line is malformed precisely when both spec
//! parsers reject it.
//!
//! Command lines are the variant name, with the message-box variant
//! carrying its payload as `ShowMessageBox <secs> <nanos> <text>` (text
//! escaped so it stays on one line). Verification lines start with
//! `V` and list the turn, chunk count, player position and the sorted
//! monster tuples.

use crate::monster::Kind;
use crate::point::Point;
use crate::state::{Command, Verification, VerificationModel};
use vstd::prelude::*;

verus! {

/// ASCII space, the field separator.
pub const SP: u8 = 32;

/// ASCII minus, the sign of a negative number.
pub const MINUS: u8 = 45;

/// ASCII backslash, the escape lead-in inside message text.
pub const ESC: u8 = 92;

/// ASCII line feed: the one byte message text must never contain raw.
pub const LF: u8 = 10;

/// ASCII lower-case n, the escaped form of a line feed.
pub const ESC_N: u8 = 110;

/// Ghost model of a command: the message payload as a byte sequence.
pub enum CommandModel {
    N,
    E,
    S,
    W,
    NE,
    NW,
    SE,
    SW,
    UseFood,
    UseDose,
    UseCardinalDose,
    UseDiagonalDose,
    UseStrongDose,
    ShowMessageBox { ttl_secs: u64, ttl_nanos: u32, message: Seq<u8> },
}

impl View for Command {
    type V = CommandModel;

    open spec fn view(&self) -> CommandModel {
        match self {
            Command::N => CommandModel::N,
            Command::E => CommandModel::E,
            Command::S => CommandModel::S,
            Command::W => CommandModel::W,
            Command::NE => CommandModel::NE,
            Command::NW => CommandModel::NW,
            Command::SE => CommandModel::SE,
            Command::SW => CommandModel::SW,
            Command::UseFood => CommandModel::UseFood,
            Command::UseDose => CommandModel::UseDose,
            Command::UseCardinalDose => CommandModel::UseCardinalDose,
            Command::UseDiagonalDose => CommandModel::UseDiagonalDose,
            Command::UseStrongDose => CommandModel::UseStrongDose,
            Command::ShowMessageBox { ttl_secs, ttl_nanos, message } => CommandModel::ShowMessageBox {
                ttl_secs: *ttl_secs,
                ttl_nanos: *ttl_nanos,
                message: message@,
            },
        }
    }
}

/// The bytes of "N".
pub open spec fn name_n() -> Seq<u8> {
    seq![78u8]
}

/// The bytes of "E".
pub open spec fn name_e() -> Seq<u8> {
    seq![69u8]
}

/// The bytes of "S".
pub open spec fn name_s() -> Seq<u8> {
    seq![83u8]
}

/// The bytes of "W".
pub open spec fn name_w() -> Seq<u8> {
    seq![87u8]
}

/// The bytes of "NE".
pub open spec fn name_ne() -> Seq<u8> {
    seq![78u8, 69]
}

/// The bytes of "NW".
pub open spec fn name_nw() -> Seq<u8> {
    seq![78u8, 87]
}

/// The bytes of "SE".
pub open spec fn name_se() -> Seq<u8> {
    seq![83u8, 69]
}

/// The bytes of "SW".
pub open spec fn name_sw() -> Seq<u8> {
    seq![83u8, 87]
}

/// The bytes of "UseFood".
pub open spec fn name_use_food() -> Seq<u8> {
    seq![85u8, 115, 101, 70, 111, 111, 100]
}

/// The bytes of "UseDose".
pub open spec fn name_use_dose() -> Seq<u8> {
    seq![85u8, 115, 101, 68, 111, 115, 101]
}

/// The bytes of "UseCardinalDose".
pub open spec fn name_use_cardinal_dose() -> Seq<u8> {
    seq![85u8, 115, 101, 67, 97, 114, 100, 105, 110, 97, 108, 68, 111, 115, 101]
}

/// The bytes of "UseDiagonalDose".
pub open spec fn name_use_diagonal_dose() -> Seq<u8> {
    seq![85u8, 115, 101, 68, 105, 97, 103, 111, 110, 97, 108, 68, 111, 115, 101]
}

/// The bytes of "UseStrongDose".
pub open spec fn name_use_strong_dose() -> Seq<u8> {
    seq![85u8, 115, 101, 83, 116, 114, 111, 110, 103, 68, 111, 115, 101]
}

/// The bytes of "ShowMessageBox".
pub open spec fn name_show_message_box() -> Seq<u8> {
    seq![83u8, 104, 111, 119, 77, 101, 115, 115, 97, 103, 101, 66, 111, 120]
}

/// The bytes of "Anxiety".
pub open spec fn name_anxiety() -> Seq<u8> {
    seq![65u8, 110, 120, 105, 101, 116, 121]
}

/// The bytes of "Depression".
pub open spec fn name_depression() -> Seq<u8> {
    seq![68u8, 101, 112, 114, 101, 115, 115, 105, 111, 110]
}

/// The bytes of "Hunger".
pub open spec fn name_hunger() -> Seq<u8> {
    seq![72u8, 117, 110, 103, 101, 114]
}

/// The bytes of "Shadows".
pub open spec fn name_shadows() -> Seq<u8> {
    seq![83u8, 104, 97, 100, 111, 119, 115]
}

/// The bytes of "Voices".
pub open spec fn name_voices() -> Seq<u8> {
    seq![86u8, 111, 105, 99, 101, 115]
}

/// The bytes of "Npc".
pub open spec fn name_npc() -> Seq<u8> {
    seq![78u8, 112, 99]
}

fn make_name_n() -> (v: Vec<u8>)
    ensures
        v@ == name_n(),
{
    let mut v: Vec<u8> = Vec::new();
    v.push(78);
    proof {
        assert(v@ =~= name_n());
    }
    v
}

fn make_name_e() -> (v: Vec<u8>)
    ensures
        v@ == name_e(),
{
    let mut v: Vec<u8> = Vec::new();
    v.push(69);
    proof {
        assert(v@ =~= name_e());
    }
    v
}

fn make_name_s() -> (v: Vec<u8>)
    ensures
        v@ == name_s(),
{
    let mut v: Vec<u8> = Vec::new();
    v.push(83);
    proof {
        assert(v@ =~= name_s());
    }
    v
}

fn make_name_w() -> (v: Vec<u8>)
    ensures
        v@ == name_w(),
{
    let mut v: Vec<u8> = Vec::new();
    v.push(87);
    proof {
        assert(v@ =~= name_w());
    }
    v
}

fn make_name_ne() -> (v: Vec<u8>)
    ensures
        v@ == name_ne(),
{
    let mut v: Vec<u8> = Vec::new();
    v.push(78);
    v.push(69);
    proof {
        assert(v@ =~= name_ne());
    }
    v
}

fn make_name_nw() -> (v: Vec<u8>)
    ensures
        v@ == name_nw(),
{
    let mut v: Vec<u8> = Vec::new();
    v.push(78);
    v.push(87);
    proof {
        assert(v@ =~= name_nw());
    }
    v
}

fn make_name_se() -> (v: Vec<u8>)
    ensures
        v@ == name_se(),
{
    let mut v: Vec<u8> = Vec::new();
    v.push(83);
    v.push(69);
    proof {
        assert(v@ =~= name_se());
    }
    v
}

fn make_name_sw() -> (v: Vec<u8>)
    ensures
        v@ == name_sw(),
{
    let mut v: Vec<u8> = Vec::new();
    v.push(83);
    v.push(87);
    proof {
        assert(v@ =~= name_sw());
    }
    v
}

fn make_name_use_food() -> (v: Vec<u8>)
    ensures
        v@ == name_use_food(),
{
    let mut v: Vec<u8> = Vec::new();
    v.push(85);
    v.push(115);
    v.push(101);
    v.push(70);
    v.push(111);
    v.push(111);
    v.push(100);
    proof {
        assert(v@ =~= name_use_food());
    }
    v
}

fn make_name_use_dose() -> (v: Vec<u8>)
    ensures
        v@ == name_use_dose(),
{
    let mut v: Vec<u8> = Vec::new();
    v.push(85);
    v.push(115);
    v.push(101);
    v.push(68);
    v.push(111);
    v.push(115);
    v.push(101);
    proof {
        assert(v@ =~= name_use_dose());
    }
    v
}

fn make_name_use_cardinal_dose() -> (v: Vec<u8>)
    ensures
        v@ == name_use_cardinal_dose(),
{
    let mut v: Vec<u8> = Vec::new();
    v.push(85);
    v.push(115);
    v.push(101);
    v.push(67);
    v.push(97);
    v.push(114);
    v.push(100);
    v.push(105);
    v.push(110);
    v.push(97);
    v.push(108);
    v.push(68);
    v.push(111);
    v.push(115);
    v.push(101);
    proof {
        assert(v@ =~= name_use_cardinal_dose());
    }
    v
}

fn make_name_use_diagonal_dose() -> (v: Vec<u8>)
    ensures
        v@ == name_use_diagonal_dose(),
{
    let mut v: Vec<u8> = Vec::new();
    v.push(85);
    v.push(115);
    v.push(101);
    v.push(68);
    v.push(105);
    v.push(97);
    v.push(103);
    v.push(111);
    v.push(110);
    v.push(97);
    v.push(108);
    v.push(68);
    v.push(111);
    v.push(115);
    v.push(101);
    proof {
        assert(v@ =~= name_use_diagonal_dose());
    }
    v
}

fn make_name_use_strong_dose() -> (v: Vec<u8>)
    ensures
        v@ == name_use_strong_dose(),
{
    let mut v: Vec<u8> = Vec::new();
    v.push(85);
    v.push(115);
    v.push(101);
    v.push(83);
    v.push(116);
    v.push(114);
    v.push(111);
    v.push(110);
    v.push(103);
    v.push(68);
    v.push(111);
    v.push(115);
    v.push(101);
    proof {
        assert(v@ =~= name_use_strong_dose());
    }
    v
}

fn make_name_show_message_box() -> (v: Vec<u8>)
    ensures
        v@ == name_show_message_box(),
{
    let mut v: Vec<u8> = Vec::new();
    v.push(83);
    v.push(104);
    v.push(111);
    v.push(119);
    v.push(77);
    v.push(101);
    v.push(115);
    v.push(115);
    v.push(97);
    v.push(103);
    v.push(101);
    v.push(66);
    v.push(111);
    v.push(120);
    proof {
        assert(v@ =~= name_show_message_box());
    }
    v
}

fn make_name_anxiety() -> (v: Vec<u8>)
    ensures
        v@ == name_anxiety(),
{
    let mut v: Vec<u8> = Vec::new();
    v.push(65);
    v.push(110);
    v.push(120);
    v.push(105);
    v.push(101);
    v.push(116);
    v.push(121);
    proof {
        assert(v@ =~= name_anxiety());
    }
    v
}

fn make_name_depression() -> (v: Vec<u8>)
    ensures
        v@ == name_depression(),
{
    let mut v: Vec<u8> = Vec::new();
    v.push(68);
    v.push(101);
    v.push(112);
    v.push(114);
    v.push(101);
    v.push(115);
    v.push(115);
    v.push(105);
    v.push(111);
    v.push(110);
    proof {
        assert(v@ =~= name_depression());
    }
    v
}

fn make_name_hunger() -> (v: Vec<u8>)
    ensures
        v@ == name_hunger(),
{
    let mut v: Vec<u8> = Vec::new();
    v.push(72);
    v.push(117);
    v.push(110);
    v.push(103);
    v.push(101);
    v.push(114);
    proof {
        assert(v@ =~= name_hunger());
    }
    v
}

fn make_name_shadows() -> (v: Vec<u8>)
    ensures
        v@ == name_shadows(),
{
    let mut v: Vec<u8> = Vec::new();
    v.push(83);
    v.push(104);
    v.push(97);
    v.push(100);
    v.push(111);
    v.push(119);
    v.push(115);
    proof {
        assert(v@ =~= name_shadows());
    }
    v
}

fn make_name_voices() -> (v: Vec<u8>)
    ensures
        v@ == name_voices(),
{
    let mut v: Vec<u8> = Vec::new();
    v.push(86);
    v.push(111);
    v.push(105);
    v.push(99);
    v.push(101);
    v.push(115);
    proof {
        assert(v@ =~= name_voices());
    }
    v
}

fn make_name_npc() -> (v: Vec<u8>)
    ensures
        v@ == name_npc(),
{
    let mut v: Vec<u8> = Vec::new();
    v.push(78);
    v.push(112);
    v.push(99);
    proof {
        assert(v@ =~= name_npc());
    }
    v
}

/// Whether a byte is an ASCII decimal digit.
pub open spec fn is_digit(b: u8) -> bool {
    48 <= b <= 57
}

/// The decimal digits of `n`, most significant first.
pub open spec fn dec_digits(n: nat) -> Seq<u8>
    decreases n,
{
    if n < 10 {
        seq![(48 + n) as u8]
    } else {
        dec_digits(n / 10).push((48 + n % 10) as u8)
    }
}

/// The signed decimal encoding of an `i32`.
pub open spec fn dec_i32(v: i32) -> Seq<u8> {
    if v < 0 {
        seq![MINUS] + dec_digits((-(v as int)) as nat)
    } else {
        dec_digits(v as nat)
    }
}

/// Scans a digit run, accumulating the value; rejects a run whose value
/// leaves `u64`.
pub open spec fn spec_scan_u64(s: Seq<u8>, pos: int, acc: u64) -> Option<(u64, int)>
    decreases s.len() - pos
        when 0 <= pos <= s.len()
{
    if pos < 0 || pos >= s.len() || !is_digit(s[pos]) {
        Some((acc, pos))
    } else {
        let d = (s[pos] - 48) as u64;
        if acc > (u64::MAX - d) / 10 {
            None
        } else {
            spec_scan_u64(s, pos + 1, (acc * 10 + d) as u64)
        }
    }
}

/// A canonical unsigned number at `pos`: at least one digit, no
/// superfluous leading zero, value in `u64`.
pub open spec fn spec_parse_u64(s: Seq<u8>, pos: int) -> Option<(u64, int)> {
    if pos < 0 || pos >= s.len() || !is_digit(s[pos]) {
        None
    } else if s[pos] == 48 && pos + 1 < s.len() && is_digit(s[pos + 1]) {
        None
    } else {
        spec_scan_u64(s, pos, 0)
    }
}

/// A canonical signed number at `pos`, in `i32` range; `-0` is not
/// canonical.
pub open spec fn spec_parse_i32(s: Seq<u8>, pos: int) -> Option<(i32, int)> {
    if 0 <= pos < s.len() && s[pos] == MINUS {
        match spec_parse_u64(s, pos + 1) {
            Some((v, end)) => if 1 <= v <= 2147483648u64 {
                Some(((-(v as int)) as i32, end))
            } else {
                None
            },
            None => None,
        }
    } else {
        match spec_parse_u64(s, pos) {
            Some((v, end)) => if v <= 2147483647u64 {
                Some((v as i32, end))
            } else {
                None
            },
            None => None,
        }
    }
}

/// Appends the decimal digits of `n`.
pub fn encode_u64_into(out: &mut Vec<u8>, n: u64)
    ensures
        final(out)@ == old(out)@ + dec_digits(n as nat),
{
    let mut rev: Vec<u8> = Vec::new();
    let mut m: u64 = n;
    while m >= 10
        invariant
            dec_digits(n as nat) == dec_digits(m as nat) + rev@.reverse(),
        decreases m,
    {
        let d = (48 + (m % 10) as u8) as u8;
        rev.push(d);
        proof {
            assert(dec_digits(m as nat) == dec_digits((m as nat) / 10).push(
                (48 + (m as nat) % 10) as u8,
            ));
            assert(rev@.reverse() =~= seq![d] + rev@.drop_last().reverse());
            assert(dec_digits((m as nat) / 10) + rev@.reverse() =~= dec_digits(m as nat)
                + rev@.drop_last().reverse());
        }
        m = m / 10;
    }
    out.push((48 + (m % 10) as u8) as u8);
    proof {
        assert(dec_digits(m as nat) =~= seq![(48 + (m as nat) % 10) as u8]);
    }
    let ghost base = out@;
    let mut idx: usize = rev.len();
    while idx > 0
        invariant
            idx <= rev@.len(),
            out@ == base + rev@.reverse().take(rev@.len() - idx),
        decreases idx,
    {
        idx = idx - 1;
        out.push(rev[idx]);
        proof {
            assert(rev@.reverse()[rev@.len() - idx - 1] == rev@[idx as int]);
            assert(out@ =~= base + rev@.reverse().take(rev@.len() - idx));
        }
    }
    proof {
        assert(rev@.reverse().take(rev@.len() as int) =~= rev@.reverse());
        assert(out@ =~= old(out)@ + dec_digits(n as nat));
    }
}

/// Appends the signed decimal digits of `v`.
pub fn encode_i32_into(out: &mut Vec<u8>, v: i32)
    ensures
        final(out)@ == old(out)@ + dec_i32(v),
{
    if v < 0 {
        out.push(MINUS);
        let m = -(v as i64);
        encode_u64_into(out, m as u64);
        proof {
            assert(out@ =~= old(out)@ + dec_i32(v));
        }
    } else {
        encode_u64_into(out, v as u64);
    }
}

/// Parses a canonical unsigned number: exactly the spec grammar.
pub fn parse_u64(s: &Vec<u8>, pos: usize) -> (r: Option<(u64, usize)>)
    requires
        pos <= s@.len(),
    ensures
        match r {
            Some((v, end)) => spec_parse_u64(s@, pos as int) == Some((v, end as int)) && pos < end
                <= s@.len(),
            None => spec_parse_u64(s@, pos as int) is None,
        },
{
    if pos >= s.len() || !(48 <= s[pos] && s[pos] <= 57) {
        return None;
    }
    if s[pos] == 48 && pos + 1 < s.len() && 48 <= s[pos + 1] && s[pos + 1] <= 57 {
        return None;
    }
    let mut acc: u64 = 0;
    let mut i: usize = pos;
    while i < s.len() && 48 <= s[i] && s[i] <= 57
        invariant
            pos <= i <= s@.len(),
            spec_scan_u64(s@, pos as int, 0) == spec_scan_u64(s@, i as int, acc),
            i == pos ==> acc == 0,
        decreases s@.len() - i,
    {
        let d = (s[i] - 48) as u64;
        if acc > (u64::MAX - d) / 10 {
            return None;
        }
        proof {
            vstd::arithmetic::div_mod::lemma_fundamental_div_mod((u64::MAX - d) as int, 10);
            assert(acc * 10 <= ((u64::MAX - d) as int / 10) * 10) by (nonlinear_arith)
                requires
                    acc <= (u64::MAX - d) as int / 10,
            ;
        }
        acc = acc * 10 + d;
        i = i + 1;
    }
    Some((acc, i))
}

/// Parses a canonical signed number in `i32` range: exactly the spec
/// grammar.
pub fn parse_i32(s: &Vec<u8>, pos: usize) -> (r: Option<(i32, usize)>)
    requires
        pos <= s@.len(),
    ensures
        match r {
            Some((v, end)) => spec_parse_i32(s@, pos as int) == Some((v, end as int)) && pos < end
                <= s@.len(),
            None => spec_parse_i32(s@, pos as int) is None,
        },
{
    if pos < s.len() && s[pos] == MINUS {
        match parse_u64(s, pos + 1) {
            Some((v, end)) => {
                if 1 <= v && v <= 2147483648u64 {
                    let value = (-(v as i64)) as i32;
                    Some((value, end))
                } else {
                    None
                }
            },
            None => None,
        }
    } else {
        match parse_u64(s, pos) {
            Some((v, end)) => {
                if v <= 2147483647u64 {
                    Some((v as i32, end))
                } else {
                    None
                }
            },
            None => None,
        }
    }
}

/// Appends a copy of `src`.
pub fn push_bytes(out: &mut Vec<u8>, src: &Vec<u8>)
    ensures
        final(out)@ == old(out)@ + src@,
{
    let mut i: usize = 0;
    while i < src.len()
        invariant
            i <= src@.len(),
            out@ == old(out)@ + src@.take(i as int),
        decreases src@.len() - i,
    {
        out.push(src[i]);
        i = i + 1;
        proof {
            assert(out@ =~= old(out)@ + src@.take(i as int));
        }
    }
    proof {
        assert(out@ =~= old(out)@ + src@);
    }
}

/// Whether the whole line equals `lit`.
pub fn line_equals(line: &Vec<u8>, lit: &Vec<u8>) -> (r: bool)
    ensures
        r == (line@ == lit@),
{
    if line.len() != lit.len() {
        proof {
            assert(line@.len() != lit@.len());
        }
        return false;
    }
    let mut i: usize = 0;
    while i < line.len()
        invariant
            i <= line@.len(),
            line@.len() == lit@.len(),
            forall|q: int| 0 <= q < i ==> line@[q] == lit@[q],
        decreases line@.len() - i,
    {
        if line[i] != lit[i] {
            return false;
        }
        i = i + 1;
    }
    proof {
        assert(line@ =~= lit@);
    }
    true
}

/// Whether `lit` occurs at `pos`.
pub fn matches_at(line: &Vec<u8>, pos: usize, lit: &Vec<u8>) -> (r: bool)
    requires
        pos <= line@.len(),
    ensures
        r == (pos + lit@.len() <= line@.len() && line@.subrange(
            pos as int,
            pos + lit@.len(),
        ) == lit@),
{
    if line.len() - pos < lit.len() {
        return false;
    }
    proof {
        assert(line@.len() <= usize::MAX);
    }
    let mut i: usize = 0;
    while i < lit.len()
        invariant
            i <= lit@.len(),
            pos + lit@.len() <= line@.len(),
            line@.len() <= usize::MAX,
            forall|q: int| 0 <= q < i ==> line@[pos + q] == lit@[q],
        decreases lit@.len() - i,
    {
        proof {
            assert(pos + i < line@.len());
        }
        let idx = pos + i;
        if line[idx] != lit[i] {
            proof {
                assert(line@.subrange(pos as int, pos + lit@.len())[i as int] != lit@[i as int]);
            }
            return false;
        }
        i = i + 1;
    }
    proof {
        assert(line@.subrange(pos as int, pos + lit@.len()) =~= lit@);
    }
    true
}


/// The escaped form of one message byte: backslash and line feed are
/// escaped, everything else passes through.
pub open spec fn escape_byte(b: u8) -> Seq<u8> {
    if b == ESC {
        seq![ESC, ESC]
    } else if b == LF {
        seq![ESC, ESC_N]
    } else {
        seq![b]
    }
}

/// Message text escaped so it fits on one log line.
pub open spec fn spec_escape(m: Seq<u8>) -> Seq<u8>
    decreases m.len(),
{
    if m.len() == 0 {
        Seq::empty()
    } else {
        escape_byte(m[0]) + spec_escape(m.skip(1))
    }
}

pub proof fn lemma_escape_push(m: Seq<u8>, b: u8)
    ensures
        spec_escape(m.push(b)) == spec_escape(m) + escape_byte(b),
    decreases m.len(),
{
    if m.len() == 0 {
        assert(m.push(b).skip(1) =~= Seq::<u8>::empty());
        assert(m.push(b)[0] == b);
        assert(spec_escape(m.push(b)) == escape_byte(b) + spec_escape(Seq::<u8>::empty()));
        assert(spec_escape(m.push(b)) =~= spec_escape(m) + escape_byte(b));
    } else {
        assert(m.push(b).skip(1) =~= m.skip(1).push(b));
        assert(m.push(b)[0] == m[0]);
        lemma_escape_push(m.skip(1), b);
        assert(spec_escape(m.push(b)) =~= spec_escape(m) + escape_byte(b));
    }
}

/// Undoes [`spec_escape`]; rejects a dangling escape, an unknown escape
/// or a raw line feed.
pub open spec fn spec_unescape(s: Seq<u8>) -> Option<Seq<u8>>
    decreases s.len(),
{
    if s.len() == 0 {
        Some(Seq::empty())
    } else if s[0] == ESC {
        if s.len() < 2 {
            None
        } else if s[1] == ESC {
            match spec_unescape(s.skip(2)) {
                Some(r) => Some(seq![ESC] + r),
                None => None,
            }
        } else if s[1] == ESC_N {
            match spec_unescape(s.skip(2)) {
                Some(r) => Some(seq![LF] + r),
                None => None,
            }
        } else {
            None
        }
    } else if s[0] == LF {
        None
    } else {
        match spec_unescape(s.skip(1)) {
            Some(r) => Some(seq![s[0]] + r),
            None => None,
        }
    }
}

/// The bytes a command is logged as.
pub open spec fn spec_encode_command(c: CommandModel) -> Seq<u8> {
    match c {
        CommandModel::N => name_n(),
        CommandModel::E => name_e(),
        CommandModel::S => name_s(),
        CommandModel::W => name_w(),
        CommandModel::NE => name_ne(),
        CommandModel::NW => name_nw(),
        CommandModel::SE => name_se(),
        CommandModel::SW => name_sw(),
        CommandModel::UseFood => name_use_food(),
        CommandModel::UseDose => name_use_dose(),
        CommandModel::UseCardinalDose => name_use_cardinal_dose(),
        CommandModel::UseDiagonalDose => name_use_diagonal_dose(),
        CommandModel::UseStrongDose => name_use_strong_dose(),
        CommandModel::ShowMessageBox { ttl_secs, ttl_nanos, message } => name_show_message_box()
            + seq![SP] + dec_digits(ttl_secs as nat) + seq![SP] + dec_digits(ttl_nanos as nat)
            + seq![SP] + spec_escape(message),
    }
}

/// The bytes a monster kind is logged as.
pub open spec fn spec_encode_kind(k: Kind) -> Seq<u8> {
    match k {
        Kind::Anxiety => name_anxiety(),
        Kind::Depression => name_depression(),
        Kind::Hunger => name_hunger(),
        Kind::Shadows => name_shadows(),
        Kind::Voices => name_voices(),
        Kind::Npc => name_npc(),
    }
}

/// The bytes of the first `i` monster tuples of a verification line.
pub open spec fn spec_enc_monsters(ms: Seq<(Point, Point, Kind)>, i: nat) -> Seq<u8>
    decreases i,
{
    if i == 0 || i > ms.len() {
        Seq::empty()
    } else {
        let m = ms[i - 1];
        spec_enc_monsters(ms, (i - 1) as nat) + seq![SP] + dec_i32(m.0.x) + seq![SP] + dec_i32(
            m.0.y,
        ) + seq![SP] + dec_i32(m.1.x) + seq![SP] + dec_i32(m.1.y) + seq![SP] + spec_encode_kind(m.2)
    }
}

/// The bytes a verification snapshot is logged as.
pub open spec fn spec_encode_verification(v: VerificationModel) -> Seq<u8> {
    seq![86u8, SP] + dec_i32(v.turn as i32) + seq![SP] + dec_digits((v.chunk_count as u64) as nat)
        + seq![SP] + dec_i32(v.player_pos.x) + seq![SP] + dec_i32(v.player_pos.y) + seq![SP]
        + dec_digits(v.monsters.len()) + spec_enc_monsters(v.monsters, v.monsters.len())
}

/// A command line: one of the variant names, or the message-box form.
/// This spec parser defines the command grammar.
pub open spec fn spec_parse_command(line: Seq<u8>) -> Option<CommandModel> {
    if line == name_n() {
        Some(CommandModel::N)
    } else if line == name_e() {
        Some(CommandModel::E)
    } else if line == name_s() {
        Some(CommandModel::S)
    } else if line == name_w() {
        Some(CommandModel::W)
    } else if line == name_ne() {
        Some(CommandModel::NE)
    } else if line == name_nw() {
        Some(CommandModel::NW)
    } else if line == name_se() {
        Some(CommandModel::SE)
    } else if line == name_sw() {
        Some(CommandModel::SW)
    } else if line == name_use_food() {
        Some(CommandModel::UseFood)
    } else if line == name_use_dose() {
        Some(CommandModel::UseDose)
    } else if line == name_use_cardinal_dose() {
        Some(CommandModel::UseCardinalDose)
    } else if line == name_use_diagonal_dose() {
        Some(CommandModel::UseDiagonalDose)
    } else if line == name_use_strong_dose() {
        Some(CommandModel::UseStrongDose)
    } else if line.len() > 15 && line.subrange(0, 15) == name_show_message_box() + seq![SP] {
        match spec_parse_u64(line, 15) {
            Some((secs, p1)) => if p1 < line.len() && line[p1] == SP {
                match spec_parse_u64(line, p1 + 1) {
                    Some((nanos, p2)) => if nanos < 1000000000 && p2 < line.len() && line[p2]
                        == SP {
                        match spec_unescape(line.skip(p2 + 1)) {
                            Some(msg) => Some(
                                CommandModel::ShowMessageBox {
                                    ttl_secs: secs,
                                    ttl_nanos: nanos as u32,
                                    message: msg,
                                },
                            ),
                            None => None,
                        }
                    } else {
                        None
                    },
                    None => None,
                }
            } else {
                None
            },
            None => None,
        }
    } else {
        None
    }
}

/// A monster kind name at `pos`.
pub open spec fn spec_parse_kind_at(s: Seq<u8>, pos: int) -> Option<(Kind, int)> {
    if 0 <= pos <= s.len() && pos + name_anxiety().len() <= s.len() && s.subrange(
        pos,
        pos + name_anxiety().len(),
    ) == name_anxiety() {
        Some((Kind::Anxiety, pos + name_anxiety().len()))
    } else if 0 <= pos <= s.len() && pos + name_depression().len() <= s.len() && s.subrange(
        pos,
        pos + name_depression().len(),
    ) == name_depression() {
        Some((Kind::Depression, pos + name_depression().len()))
    } else if 0 <= pos <= s.len() && pos + name_hunger().len() <= s.len() && s.subrange(
        pos,
        pos + name_hunger().len(),
    ) == name_hunger() {
        Some((Kind::Hunger, pos + name_hunger().len()))
    } else if 0 <= pos <= s.len() && pos + name_shadows().len() <= s.len() && s.subrange(
        pos,
        pos + name_shadows().len(),
    ) == name_shadows() {
        Some((Kind::Shadows, pos + name_shadows().len()))
    } else if 0 <= pos <= s.len() && pos + name_voices().len() <= s.len() && s.subrange(
        pos,
        pos + name_voices().len(),
    ) == name_voices() {
        Some((Kind::Voices, pos + name_voices().len()))
    } else if 0 <= pos <= s.len() && pos + name_npc().len() <= s.len() && s.subrange(
        pos,
        pos + name_npc().len(),
    ) == name_npc() {
        Some((Kind::Npc, pos + name_npc().len()))
    } else {
        None
    }
}

/// `n` monster tuples, each preceded by a space.
pub open spec fn spec_parse_ver_monsters(s: Seq<u8>, pos: int, n: nat) -> Option<
    (Seq<(Point, Point, Kind)>, int),
>
    decreases n,
{
    if n == 0 {
        Some((Seq::empty(), pos))
    } else if !(0 <= pos < s.len() && s[pos] == SP) {
        None
    } else {
        match spec_parse_i32(s, pos + 1) {
            Some((mx, p1)) => if p1 < s.len() && s[p1] == SP {
                match spec_parse_i32(s, p1 + 1) {
                    Some((my, p2)) => if p2 < s.len() && s[p2] == SP {
                        match spec_parse_i32(s, p2 + 1) {
                            Some((cx, p3)) => if p3 < s.len() && s[p3] == SP {
                                match spec_parse_i32(s, p3 + 1) {
                                    Some((cy, p4)) => if p4 < s.len() && s[p4] == SP {
                                        match spec_parse_kind_at(s, p4 + 1) {
                                            Some((k, p5)) => match spec_parse_ver_monsters(
                                                s,
                                                p5,
                                                (n - 1) as nat,
                                            ) {
                                                Some((rest, pe)) => Some(
                                                    (
                                                        seq![
                                                            (
                                                                Point { x: mx, y: my },
                                                                Point { x: cx, y: cy },
                                                                k,
                                                            ),
                                                        ] + rest,
                                                        pe,
                                                    ),
                                                ),
                                                None => None,
                                            },
                                            None => None,
                                        }
                                    } else {
                                        None
                                    },
                                    None => None,
                                }
                            } else {
                                None
                            },
                            None => None,
                        }
                    } else {
                        None
                    },
                    None => None,
                }
            } else {
                None
            },
            None => None,
        }
    }
}

/// A verification line. This spec parser defines the verification
/// grammar.
pub open spec fn spec_parse_verification(line: Seq<u8>) -> Option<VerificationModel> {
    if !(line.len() >= 2 && line[0] == 86 && line[1] == SP) {
        None
    } else {
        match spec_parse_i32(line, 2) {
            Some((turn, p1)) => if p1 < line.len() && line[p1] == SP {
                match spec_parse_u64(line, p1 + 1) {
                    Some((cc, p2)) => if cc <= u32::MAX && p2 < line.len() && line[p2] == SP {
                        match spec_parse_i32(line, p2 + 1) {
                            Some((px, p3)) => if p3 < line.len() && line[p3] == SP {
                                match spec_parse_i32(line, p3 + 1) {
                                    Some((py, p4)) => if p4 < line.len() && line[p4] == SP {
                                        match spec_parse_u64(line, p4 + 1) {
                                            Some((n, p5)) => if n <= u32::MAX {
                                                match spec_parse_ver_monsters(
                                                    line,
                                                    p5,
                                                    n as nat,
                                                ) {
                                                    Some((ms, pe)) => if pe == line.len() {
                                                        Some(
                                                            VerificationModel {
                                                                turn: turn as int,
                                                                chunk_count: cc as int,
                                                                player_pos: Point {
                                                                    x: px,
                                                                    y: py,
                                                                },
                                                                monsters: ms,
                                                            },
                                                        )
                                                    } else {
                                                        None
                                                    },
                                                    None => None,
                                                }
                                            } else {
                                                None
                                            },
                                            None => None,
                                        }
                                    } else {
                                        None
                                    },
                                    None => None,
                                }
                            } else {
                                None
                            },
                            None => None,
                        }
                    } else {
                        None
                    },
                    None => None,
                }
            } else {
                None
            },
            None => None,
        }
    }
}

/// Appends the escaped form of `msg`.
pub fn escape_into(out: &mut Vec<u8>, msg: &Vec<u8>)
    ensures
        final(out)@ == old(out)@ + spec_escape(msg@),
{
    let mut i: usize = 0;
    while i < msg.len()
        invariant
            i <= msg@.len(),
            out@ == old(out)@ + spec_escape(msg@.take(i as int)),
        decreases msg@.len() - i,
    {
        let b = msg[i];
        if b == ESC {
            out.push(ESC);
            out.push(ESC);
        } else if b == LF {
            out.push(ESC);
            out.push(ESC_N);
        } else {
            out.push(b);
        }
        i = i + 1;
        proof {
            lemma_escape_push(msg@.take(i - 1), msg@[i - 1]);
            assert(msg@.take(i as int) =~= msg@.take(i - 1).push(msg@[i - 1]));
            assert(out@ =~= old(out)@ + spec_escape(msg@.take(i as int)));
        }
    }
    proof {
        assert(msg@.take(msg@.len() as int) =~= msg@);
    }
}

/// Undoes the escaping of the tail of `line` starting at `pos`.
pub fn unescape_from(line: &Vec<u8>, pos: usize) -> (r: Option<Vec<u8>>)
    requires
        pos <= line@.len(),
    ensures
        match r {
            Some(msg) => spec_unescape(line@.skip(pos as int)) == Some(msg@),
            None => spec_unescape(line@.skip(pos as int)) is None,
        },
{
    let mut out: Vec<u8> = Vec::new();
    let mut i: usize = pos;
    while i < line.len()
        invariant
            pos <= i <= line@.len(),
            spec_unescape(line@.skip(pos as int)) == (match spec_unescape(line@.skip(i as int)) {
                Some(r) => Some(out@ + r),
                None => None::<Seq<u8>>,
            }),
        decreases line@.len() - i,
    {
        let b = line[i];
        if b == ESC {
            if i + 1 >= line.len() {
                proof {
                    assert(line@.skip(i as int).len() < 2);
                    assert(line@.skip(i as int)[0] == ESC);
                }
                return None;
            }
            let c = line[i + 1];
            proof {
                assert(line@.skip(i as int)[1] == c);
                assert(line@.skip(i as int).skip(2) =~= line@.skip(i + 2));
            }
            if c == ESC {
                out.push(ESC);
            } else if c == ESC_N {
                out.push(LF);
            } else {
                return None;
            }
            i = i + 2;
            proof {
                assert(spec_unescape(line@.skip(pos as int)) == (
                match spec_unescape(line@.skip(i as int)) {
                    Some(r) => Some(out@ + r),
                    None => None::<Seq<u8>>,
                })) by {
                    if spec_unescape(line@.skip(i as int)) is Some {
                        let r = spec_unescape(line@.skip(i as int)).unwrap();
                        assert(out@.drop_last() + (seq![out@.last()] + r) =~= out@ + r);
                    }
                };
            }
        } else if b == LF {
            proof {
                assert(line@.skip(i as int)[0] == LF);
            }
            return None;
        } else {
            out.push(b);
            i = i + 1;
            proof {
                assert(line@.skip(i - 1)[0] == b);
                assert(line@.skip(i - 1).skip(1) =~= line@.skip(i as int));
                assert(spec_unescape(line@.skip(pos as int)) == (
                match spec_unescape(line@.skip(i as int)) {
                    Some(r) => Some(out@ + r),
                    None => None::<Seq<u8>>,
                })) by {
                    if spec_unescape(line@.skip(i as int)) is Some {
                        let r = spec_unescape(line@.skip(i as int)).unwrap();
                        assert(out@.drop_last() + (seq![b] + r) =~= out@ + r);
                    }
                };
            }
        }
    }
    proof {
        assert(line@.skip(i as int) =~= Seq::<u8>::empty());
        assert(spec_unescape(line@.skip(i as int)) == Some(Seq::<u8>::empty()));
        assert(out@ + Seq::<u8>::empty() =~= out@);
    }
    Some(out)
}

/// The log line for a command.
pub fn encode_command(c: &Command) -> (r: Vec<u8>)
    ensures
        r@ == spec_encode_command(c@),
{
    match c {
        Command::N => make_name_n(),
        Command::E => make_name_e(),
        Command::S => make_name_s(),
        Command::W => make_name_w(),
        Command::NE => make_name_ne(),
        Command::NW => make_name_nw(),
        Command::SE => make_name_se(),
        Command::SW => make_name_sw(),
        Command::UseFood => make_name_use_food(),
        Command::UseDose => make_name_use_dose(),
        Command::UseCardinalDose => make_name_use_cardinal_dose(),
        Command::UseDiagonalDose => make_name_use_diagonal_dose(),
        Command::UseStrongDose => make_name_use_strong_dose(),
        Command::ShowMessageBox { ttl_secs, ttl_nanos, message } => {
            let mut out = make_name_show_message_box();
            out.push(SP);
            encode_u64_into(&mut out, *ttl_secs);
            out.push(SP);
            encode_u64_into(&mut out, *ttl_nanos as u64);
            out.push(SP);
            escape_into(&mut out, message);
            proof {
                assert(out@ =~= spec_encode_command(c@));
            }
            out
        },
    }
}

/// The log line for a monster kind.
pub fn encode_kind_into(out: &mut Vec<u8>, k: Kind)
    ensures
        final(out)@ == old(out)@ + spec_encode_kind(k),
{
    let name = match k {
        Kind::Anxiety => make_name_anxiety(),
        Kind::Depression => make_name_depression(),
        Kind::Hunger => make_name_hunger(),
        Kind::Shadows => make_name_shadows(),
        Kind::Voices => make_name_voices(),
        Kind::Npc => make_name_npc(),
    };
    push_bytes(out, &name);
}

/// The log line for a verification snapshot.
#[verifier::rlimit(100)]
pub fn encode_verification(v: &Verification) -> (r: Vec<u8>)
    ensures
        r@ == spec_encode_verification(v@),
{
    let mut out: Vec<u8> = Vec::new();
    out.push(86);
    out.push(SP);
    encode_i32_into(&mut out, v.turn);
    out.push(SP);
    encode_u64_into(&mut out, v.chunk_count as u64);
    out.push(SP);
    encode_i32_into(&mut out, v.player_pos.x);
    out.push(SP);
    encode_i32_into(&mut out, v.player_pos.y);
    out.push(SP);
    encode_u64_into(&mut out, v.monsters.len() as u64);
    let ghost head = out@;
    let mut i: usize = 0;
    while i < v.monsters.len()
        invariant
            i <= v.monsters@.len(),
            out@ == head + spec_enc_monsters(v.monsters@, i as nat),
        decreases v.monsters@.len() - i,
    {
        let (mp, cp, k) = v.monsters[i];
        out.push(SP);
        encode_i32_into(&mut out, mp.x);
        out.push(SP);
        encode_i32_into(&mut out, mp.y);
        out.push(SP);
        encode_i32_into(&mut out, cp.x);
        out.push(SP);
        encode_i32_into(&mut out, cp.y);
        out.push(SP);
        encode_kind_into(&mut out, k);
        i = i + 1;
        proof {
            assert(out@ =~= head + spec_enc_monsters(v.monsters@, i as nat));
        }
    }
    proof {
        assert(out@ =~= spec_encode_verification(v@)) by {
            assert((v@.turn as i32) == v.turn);
            assert(((v@.chunk_count as u64) as nat) == v.chunk_count as nat);
            assert(v@.monsters.len() == v.monsters@.len());
        };
    }
    out
}

/// Trial-decodes a command line: exactly the command grammar.
pub fn parse_command(line: &Vec<u8>) -> (r: Option<Command>)
    ensures
        match r {
            Some(c) => spec_parse_command(line@) == Some(c@),
            None => spec_parse_command(line@) is None,
        },
{
    if line_equals(line, &make_name_n()) {
        return Some(Command::N);
    }
    if line_equals(line, &make_name_e()) {
        return Some(Command::E);
    }
    if line_equals(line, &make_name_s()) {
        return Some(Command::S);
    }
    if line_equals(line, &make_name_w()) {
        return Some(Command::W);
    }
    if line_equals(line, &make_name_ne()) {
        return Some(Command::NE);
    }
    if line_equals(line, &make_name_nw()) {
        return Some(Command::NW);
    }
    if line_equals(line, &make_name_se()) {
        return Some(Command::SE);
    }
    if line_equals(line, &make_name_sw()) {
        return Some(Command::SW);
    }
    if line_equals(line, &make_name_use_food()) {
        return Some(Command::UseFood);
    }
    if line_equals(line, &make_name_use_dose()) {
        return Some(Command::UseDose);
    }
    if line_equals(line, &make_name_use_cardinal_dose()) {
        return Some(Command::UseCardinalDose);
    }
    if line_equals(line, &make_name_use_diagonal_dose()) {
        return Some(Command::UseDiagonalDose);
    }
    if line_equals(line, &make_name_use_strong_dose()) {
        return Some(Command::UseStrongDose);
    }
    let mut smb_prefix = make_name_show_message_box();
    smb_prefix.push(SP);
    proof {
        assert(smb_prefix@ =~= name_show_message_box() + seq![SP]);
    }
    if line.len() > 15 && matches_at(line, 0, &smb_prefix) {
        proof {
            assert(line@.subrange(0, 15) == smb_prefix@);
        }
        match parse_u64(line, 15) {
            Some((secs, p1)) => {
                if p1 < line.len() && line[p1] == SP {
                    match parse_u64(line, p1 + 1) {
                        Some((nanos, p2)) => {
                            if nanos < 1000000000 && p2 < line.len() && line[p2] == SP {
                                match unescape_from(line, p2 + 1) {
                                    Some(msg) => Some(
                                        Command::ShowMessageBox {
                                            ttl_secs: secs,
                                            ttl_nanos: nanos as u32,
                                            message: msg,
                                        },
                                    ),
                                    None => None,
                                }
                            } else {
                                None
                            }
                        },
                        None => None,
                    }
                } else {
                    None
                }
            },
            None => None,
        }
    } else {
        proof {
            if line@.len() > 15 && line@.subrange(0, 15) == name_show_message_box() + seq![SP] {
                assert(line@.subrange(0, 15) == smb_prefix@);
                assert(false);
            }
        }
        None
    }
}

/// Trial-decodes a monster kind name at `pos`.
fn parse_kind_at(line: &Vec<u8>, pos: usize) -> (r: Option<(Kind, usize)>)
    requires
        pos <= line@.len(),
    ensures
        match r {
            Some((k, end)) => spec_parse_kind_at(line@, pos as int) == Some((k, end as int))
                && pos <= end <= line@.len(),
            None => spec_parse_kind_at(line@, pos as int) is None,
        },
{
    proof {
        assert(line.len() == line@.len());
    }
    let n1 = make_name_anxiety();
    if matches_at(line, pos, &n1) {
        return Some((Kind::Anxiety, pos + n1.len()));
    }
    let n2 = make_name_depression();
    if matches_at(line, pos, &n2) {
        return Some((Kind::Depression, pos + n2.len()));
    }
    let n3 = make_name_hunger();
    if matches_at(line, pos, &n3) {
        return Some((Kind::Hunger, pos + n3.len()));
    }
    let n4 = make_name_shadows();
    if matches_at(line, pos, &n4) {
        return Some((Kind::Shadows, pos + n4.len()));
    }
    let n5 = make_name_voices();
    if matches_at(line, pos, &n5) {
        return Some((Kind::Voices, pos + n5.len()));
    }
    let n6 = make_name_npc();
    if matches_at(line, pos, &n6) {
        return Some((Kind::Npc, pos + n6.len()));
    }
    None
}

/// Trial-decodes a verification line: exactly the verification grammar.
#[verifier::rlimit(80)]
pub fn parse_verification(line: &Vec<u8>) -> (r: Option<Verification>)
    ensures
        match r {
            Some(v) => spec_parse_verification(line@) == Some(v@),
            None => spec_parse_verification(line@) is None,
        },
{
    if !(line.len() >= 2 && line[0] == 86 && line[1] == SP) {
        return None;
    }
    let (turn, p1) = match parse_i32(line, 2) {
        Some(x) => x,
        None => {
            return None;
        },
    };
    if !(p1 < line.len() && line[p1] == SP) {
        return None;
    }
    let (cc, p2) = match parse_u64(line, p1 + 1) {
        Some(x) => x,
        None => {
            return None;
        },
    };
    if !(cc <= 0xFFFF_FFFFu64 && p2 < line.len() && line[p2] == SP) {
        return None;
    }
    let (px, p3) = match parse_i32(line, p2 + 1) {
        Some(x) => x,
        None => {
            return None;
        },
    };
    if !(p3 < line.len() && line[p3] == SP) {
        return None;
    }
    let (py, p4) = match parse_i32(line, p3 + 1) {
        Some(x) => x,
        None => {
            return None;
        },
    };
    if !(p4 < line.len() && line[p4] == SP) {
        return None;
    }
    let (n, p5) = match parse_u64(line, p4 + 1) {
        Some(x) => x,
        None => {
            return None;
        },
    };
    if !(n <= 0xFFFF_FFFFu64) {
        return None;
    }
    let mut monsters: Vec<(Point, Point, Kind)> = Vec::new();
    let mut got: u64 = 0;
    let mut pos: usize = p5;
    while got < n
        invariant
            got <= n,
            pos <= line@.len(),
            line@.len() <= usize::MAX,
            spec_parse_ver_monsters(line@, p5 as int, n as nat) == (
            match spec_parse_ver_monsters(line@, pos as int, (n - got) as nat) {
                Some((rest, pe)) => Some((monsters@ + rest, pe)),
                None => None::<(Seq<(Point, Point, Kind)>, int)>,
            }),
            spec_parse_verification(line@) == (
            match spec_parse_ver_monsters(line@, p5 as int, n as nat) {
                Some((ms, pe)) => if pe == line@.len() {
                    Some(
                        VerificationModel {
                            turn: turn as int,
                            chunk_count: cc as int,
                            player_pos: Point { x: px, y: py },
                            monsters: ms,
                        },
                    )
                } else {
                    None
                },
                None => None::<VerificationModel>,
            }),
        decreases n - got,
    {
        if !(pos < line.len() && line[pos] == SP) {
            return None;
        }
        let (mx, q1) = match parse_i32(line, pos + 1) {
            Some(x) => x,
            None => {
                return None;
            },
        };
        if !(q1 < line.len() && line[q1] == SP) {
            return None;
        }
        let (my, q2) = match parse_i32(line, q1 + 1) {
            Some(x) => x,
            None => {
                return None;
            },
        };
        if !(q2 < line.len() && line[q2] == SP) {
            return None;
        }
        let (cx, q3) = match parse_i32(line, q2 + 1) {
            Some(x) => x,
            None => {
                return None;
            },
        };
        if !(q3 < line.len() && line[q3] == SP) {
            return None;
        }
        let (cy, q4) = match parse_i32(line, q3 + 1) {
            Some(x) => x,
            None => {
                return None;
            },
        };
        if !(q4 < line.len() && line[q4] == SP) {
            return None;
        }
        let (k, q5) = match parse_kind_at(line, q4 + 1) {
            Some(x) => x,
            None => {
                return None;
            },
        };
        monsters.push((Point { x: mx, y: my }, Point { x: cx, y: cy }, k));
        got = got + 1;
        pos = q5;
        proof {
            let prev = monsters@.drop_last();
            let t = (Point { x: mx, y: my }, Point { x: cx, y: cy }, k);
            assert(spec_parse_ver_monsters(line@, p5 as int, n as nat) == (
            match spec_parse_ver_monsters(line@, pos as int, (n - got) as nat) {
                Some((rest, pe)) => Some((monsters@ + rest, pe)),
                None => None::<(Seq<(Point, Point, Kind)>, int)>,
            })) by {
                if spec_parse_ver_monsters(line@, pos as int, (n - got) as nat) is Some {
                    let (rest, pe) = spec_parse_ver_monsters(
                        line@,
                        pos as int,
                        (n - got) as nat,
                    ).unwrap();
                    assert(prev + (seq![t] + rest) =~= monsters@ + rest);
                }
            };
        }
    }
    if pos != line.len() {
        return None;
    }
    proof {
        assert(spec_parse_ver_monsters(line@, pos as int, 0) == Some(
            (Seq::<(Point, Point, Kind)>::empty(), pos as int),
        ));
        assert(monsters@ + Seq::<(Point, Point, Kind)>::empty() =~= monsters@);
    }
    let v = Verification {
        turn,
        chunk_count: cc as usize,
        player_pos: Point { x: px, y: py },
        monsters,
    };
    Some(v)
}

/// Why a replay file was rejected at load time. All of these are fatal:
/// a replay that cannot be decoded in full is never partially applied.
#[derive(Clone, Copy, PartialEq, Eq, Structural, Debug)]
pub enum ReplayError {
    /// The file has no lines at all, so there is no seed.
    Empty,
    /// The first line is not a decimal seed in range.
    BadSeed,
    /// The version line is missing.
    MissingVersion,
    /// The commit line is missing.
    MissingCommit,
    /// The body line at this index decodes as neither a command nor a
    /// verification.
    MalformedLine(usize),
}

/// Ghost model of a decoded replay file.
pub struct ReplayDataModel {
    pub seed: u32,
    pub version: Seq<u8>,
    pub commit: Seq<u8>,
    pub commands: Seq<CommandModel>,
    pub verifications: Seq<VerificationModel>,
}

/// A decoded replay file: the header and the two record queues in file
/// order.
#[derive(PartialEq, Debug)]
pub struct ReplayData {
    pub seed: u32,
    pub version: Vec<u8>,
    pub commit: Vec<u8>,
    pub commands: Vec<Command>,
    pub verifications: Vec<Verification>,
}

impl View for ReplayData {
    type V = ReplayDataModel;

    open spec fn view(&self) -> ReplayDataModel {
        ReplayDataModel {
            seed: self.seed,
            version: self.version@,
            commit: self.commit@,
            commands: self.commands@.map_values(|c: Command| c@),
            verifications: self.verifications@.map_values(|v: Verification| v@),
        }
    }
}

/// The body records from line `k` on: each line is trial-decoded as a
/// command first, then as a verification; a line that is neither stops
/// the parse with its index.
pub open spec fn spec_parse_body(lines: Seq<Seq<u8>>, k: nat) -> Result<
    (Seq<CommandModel>, Seq<VerificationModel>),
    int,
>
    decreases lines.len() - k when k <= lines.len()
{
    if k >= lines.len() {
        Ok((Seq::empty(), Seq::empty()))
    } else {
        match spec_parse_command(lines[k as int]) {
            Some(c) => match spec_parse_body(lines, (k + 1) as nat) {
                Ok((cs, vs)) => Ok((seq![c] + cs, vs)),
                Err(e) => Err(e),
            },
            None => match spec_parse_verification(lines[k as int]) {
                Some(v) => match spec_parse_body(lines, (k + 1) as nat) {
                    Ok((cs, vs)) => Ok((cs, seq![v] + vs)),
                    Err(e) => Err(e),
                },
                None => Err(k as int),
            },
        }
    }
}

/// The whole replay file. This spec parser defines the file format:
/// seed line, version line, commit line, then records.
pub open spec fn spec_parse_replay(lines: Seq<Seq<u8>>) -> Result<ReplayDataModel, ReplayError> {
    if lines.len() == 0 {
        Err(ReplayError::Empty)
    } else {
        match spec_parse_u64(lines[0], 0) {
            Some((v, end)) => if end == lines[0].len() && v <= u32::MAX {
                if lines.len() < 2 {
                    Err(ReplayError::MissingVersion)
                } else if lines.len() < 3 {
                    Err(ReplayError::MissingCommit)
                } else {
                    match spec_parse_body(lines, 3) {
                        Ok((cs, vs)) => Ok(
                            ReplayDataModel {
                                seed: v as u32,
                                version: lines[1],
                                commit: lines[2],
                                commands: cs,
                                verifications: vs,
                            },
                        ),
                        Err(k) => Err(ReplayError::MalformedLine(k as usize)),
                    }
                }
            } else {
                Err(ReplayError::BadSeed)
            },
            None => Err(ReplayError::BadSeed),
        }
    }
}

/// A malformed body line is fatal, never skipped: if every body line
/// before `k` decodes and line `k` decodes as neither record, the parse
/// of the whole body fails with exactly index `k`.
pub proof fn lemma_malformed_line_fatal(lines: Seq<Seq<u8>>, j: nat, k: nat)
    requires
        3 <= j <= k < lines.len(),
        forall|q: int|
            j <= q < k ==> spec_parse_command(#[trigger] lines[q]) is Some
                || spec_parse_verification(lines[q]) is Some,
        spec_parse_command(lines[k as int]) is None,
        spec_parse_verification(lines[k as int]) is None,
    ensures
        spec_parse_body(lines, j) == Err::<(Seq<CommandModel>, Seq<VerificationModel>), int>(
            k as int,
        ),
    decreases lines.len() - j,
{
    if j == k {
    } else {
        lemma_malformed_line_fatal(lines, (j + 1) as nat, k);
    }
}

/// Decodes a whole replay file held as lines: exactly the file format.
/// Any malformed body line fails the load with its index.
#[verifier::rlimit(100)]
pub fn parse_replay(lines: &Vec<Vec<u8>>) -> (r: Result<ReplayData, ReplayError>)
    ensures
        ({
            let lm = lines@.map_values(|l: Vec<u8>| l@);
            match r {
                Ok(d) => spec_parse_replay(lm) == Ok::<ReplayDataModel, ReplayError>(d@),
                Err(e) => spec_parse_replay(lm) == Err::<ReplayDataModel, ReplayError>(e),
            }
        }),
{
    let ghost lm = lines@.map_values(|l: Vec<u8>| l@);
    if lines.len() == 0 {
        return Err(ReplayError::Empty);
    }
    let seed_line = &lines[0];
    proof {
        assert(lm[0] == seed_line@);
    }
    let (seed64, end) = match parse_u64(seed_line, 0) {
        Some(x) => x,
        None => {
            return Err(ReplayError::BadSeed);
        },
    };
    if !(end == seed_line.len() && seed64 <= 0xFFFF_FFFFu64) {
        return Err(ReplayError::BadSeed);
    }
    if lines.len() < 2 {
        return Err(ReplayError::MissingVersion);
    }
    if lines.len() < 3 {
        return Err(ReplayError::MissingCommit);
    }
    let mut commands: Vec<Command> = Vec::new();
    let mut verifications: Vec<Verification> = Vec::new();
    let mut k: usize = 3;
    while k < lines.len()
        invariant
            3 <= k <= lines@.len(),
            lm == lines@.map_values(|l: Vec<u8>| l@),
            spec_parse_body(lm, 3) == (match spec_parse_body(lm, k as nat) {
                Ok((cs, vs)) => Ok::<(Seq<CommandModel>, Seq<VerificationModel>), int>(
                    (commands@.map_values(|c: Command| c@) + cs, verifications@.map_values(
                        |v: Verification| v@,
                    ) + vs),
                ),
                Err(e) => Err(e),
            }),
            spec_parse_replay(lm) == (match spec_parse_body(lm, 3) {
                Ok((cs, vs)) => Ok::<ReplayDataModel, ReplayError>(
                    ReplayDataModel {
                        seed: seed64 as u32,
                        version: lm[1],
                        commit: lm[2],
                        commands: cs,
                        verifications: vs,
                    },
                ),
                Err(e) => Err(ReplayError::MalformedLine(e as usize)),
            }),
        decreases lines@.len() - k,
    {
        let line = &lines[k];
        proof {
            assert(lm[k as int] == line@);
        }
        let ghost old_cmds = commands@;
        let ghost old_vers = verifications@;
        match parse_command(line) {
            Some(c) => {
                let ghost cm = c@;
                commands.push(c);
                k = k + 1;
                proof {
                    assert(commands@.map_values(|c2: Command| c2@) =~= old_cmds.map_values(
                        |c2: Command| c2@,
                    ).push(cm));
                    if spec_parse_body(lm, k as nat) is Ok {
                        let (cs, vs) = spec_parse_body(lm, k as nat)->Ok_0;
                        assert(old_cmds.map_values(|c2: Command| c2@) + (seq![cm] + cs)
                            =~= commands@.map_values(|c2: Command| c2@) + cs);
                    }
                }
            },
            None => {
                match parse_verification(line) {
                    Some(v) => {
                        let ghost vm = v@;
                        verifications.push(v);
                        k = k + 1;
                        proof {
                            assert(verifications@.map_values(|v2: Verification| v2@)
                                =~= old_vers.map_values(|v2: Verification| v2@).push(vm));
                            if spec_parse_body(lm, k as nat) is Ok {
                                let (cs, vs) = spec_parse_body(lm, k as nat)->Ok_0;
                                assert(old_vers.map_values(|v2: Verification| v2@) + (seq![vm]
                                    + vs) =~= verifications@.map_values(|v2: Verification| v2@)
                                    + vs);
                            }
                        }
                    },
                    None => {
                        return Err(ReplayError::MalformedLine(k));
                    },
                }
            },
        }
    }
    proof {
        assert(spec_parse_body(lm, k as nat) == Ok::<
            (Seq<CommandModel>, Seq<VerificationModel>),
            int,
        >((Seq::empty(), Seq::empty())));
        assert(commands@.map_values(|c: Command| c@) + Seq::<CommandModel>::empty()
            =~= commands@.map_values(|c: Command| c@));
        assert(verifications@.map_values(|v: Verification| v@) + Seq::<VerificationModel>::empty()
            =~= verifications@.map_values(|v: Verification| v@));
        assert(lm[1] == lines@[1]@);
        assert(lm[2] == lines@[2]@);
    }
    let version = lines[1].clone();
    let commit = lines[2].clone();
    Ok(
        ReplayData {
            seed: seed64 as u32,
            version,
            commit,
            commands,
            verifications,
        },
    )
}

} // verus!
