//! The text forms of IP addresses: dotted decimal for IPv4, and for IPv6
//! lower-case hexadecimal with the longest run of zero segments compressed.

use crate::text::{append_joined, joined, texts};
use vstd::prelude::*;

verus! {

/// The character of a digit below sixteen.
pub open spec fn digit_char(digit: nat) -> char {
    seq![
        '0',
        '1',
        '2',
        '3',
        '4',
        '5',
        '6',
        '7',
        '8',
        '9',
        'a',
        'b',
        'c',
        'd',
        'e',
        'f',
    ][digit as int]
}

/// A number in decimal, without leading zeros.
pub open spec fn decimal_text(value: nat) -> Seq<char>
    decreases value,
{
    if value < 10 {
        seq![digit_char(value)]
    } else {
        decimal_text(value / 10).push(digit_char(value % 10))
    }
}

/// A number in lower-case hexadecimal, without leading zeros.
pub open spec fn hex_text(value: nat) -> Seq<char>
    decreases value,
{
    if value < 16 {
        seq![digit_char(value)]
    } else {
        hex_text(value / 16).push(digit_char(value % 16))
    }
}

/// The four octets of an IPv4 address, most significant first.
pub open spec fn octets(bits: u32) -> Seq<u8> {
    seq![
        (bits / 0x100_0000) as u8,
        (bits / 0x1_0000 % 0x100) as u8,
        (bits / 0x100 % 0x100) as u8,
        (bits % 0x100) as u8,
    ]
}

/// The last `count` sixteen-bit segments of a number, most significant
/// first.
pub open spec fn segments(value: nat, count: nat) -> Seq<u16>
    decreases count,
{
    if count == 0 {
        Seq::<u16>::empty()
    } else {
        segments(value / 0x1_0000, (count - 1) as nat).push((value % 0x1_0000) as u16)
    }
}

/// An IPv4 address as text: its octets in decimal, joined by dots.
pub open spec fn ipv4_text(bits: u32) -> Seq<char> {
    joined(Seq::new(4, |i: int| decimal_text(octets(bits)[i] as nat)), seq!['.'])
}

/// How many zero segments follow one another from position `at` on.
pub open spec fn zero_run(parts: Seq<u16>, at: int) -> nat
    decreases parts.len() - at,
{
    if 0 <= at < parts.len() && parts[at] == 0 {
        1 + zero_run(parts, at + 1)
    } else {
        0
    }
}

/// Among the positions below `upto`, the first at which the longest run of
/// zero segments begins.
pub open spec fn longest_zero_run_start(parts: Seq<u16>, upto: nat) -> int
    decreases upto,
{
    if upto <= 1 {
        0
    } else {
        let best = longest_zero_run_start(parts, (upto - 1) as nat);
        if zero_run(parts, upto - 1) > zero_run(parts, best) {
            upto - 1
        } else {
            best
        }
    }
}

/// The segments in hexadecimal, each a text.
pub open spec fn hex_texts(parts: Seq<u16>) -> Seq<Seq<char>> {
    Seq::new(parts.len(), |i: int| hex_text(parts[i] as nat))
}

/// Whether an IPv6 address stands for an IPv4 address: its first five
/// segments are zero and the sixth is all ones.
pub open spec fn is_ipv4_mapped(bits: u128) -> bool {
    bits / 0x1_0000_0000 == 0xffff
}

/// An IPv6 address as text. An address that stands for an IPv4 address is
/// `::ffff:` and that address in dotted decimal. Any other is its eight
/// segments in hexadecimal joined by colons, where the first longest run of
/// two or more zero segments is left out and marked by two colons.
pub open spec fn ipv6_text(bits: u128) -> Seq<char> {
    let parts = segments(bits as nat, 8);
    if is_ipv4_mapped(bits) {
        seq![':', ':', 'f', 'f', 'f', 'f', ':'] + ipv4_text((bits % 0x1_0000_0000) as u32)
    } else {
        let start = longest_zero_run_start(parts, 8);
        let run = zero_run(parts, start);
        if run > 1 {
            joined(hex_texts(parts.take(start)), seq![':']) + seq![':', ':'] + joined(
                hex_texts(parts.skip(start + run)),
                seq![':'],
            )
        } else {
            joined(hex_texts(parts), seq![':'])
        }
    }
}

/// The run that is compressed is the first of the longest: no run that
/// starts below `upto` is longer than the one at the chosen position, and
/// every run that starts before that position is shorter.
pub proof fn longest_zero_run_is_first_longest(parts: Seq<u16>, upto: nat)
    requires
        upto >= 1,
    ensures
        0 <= longest_zero_run_start(parts, upto) < upto,
        forall|at: int|
            0 <= at < upto ==> #[trigger] zero_run(parts, at) <= zero_run(
                parts,
                longest_zero_run_start(parts, upto),
            ),
        forall|at: int|
            0 <= at < longest_zero_run_start(parts, upto) ==> #[trigger] zero_run(parts, at)
                < zero_run(parts, longest_zero_run_start(parts, upto)),
    decreases upto,
{
    if upto > 1 {
        longest_zero_run_is_first_longest(parts, (upto - 1) as nat);
    }
}

/// The text of one digit.
fn digit_str(digit: u8) -> (text: &'static str)
    requires
        digit < 16,
    ensures
        text@ == seq![digit_char(digit as nat)],
{
    proof {
        reveal_strlit("0");
        reveal_strlit("1");
        reveal_strlit("2");
        reveal_strlit("3");
        reveal_strlit("4");
        reveal_strlit("5");
        reveal_strlit("6");
        reveal_strlit("7");
        reveal_strlit("8");
        reveal_strlit("9");
        reveal_strlit("a");
        reveal_strlit("b");
        reveal_strlit("c");
        reveal_strlit("d");
        reveal_strlit("e");
        reveal_strlit("f");
    }
    let text = match digit {
        0 => "0",
        1 => "1",
        2 => "2",
        3 => "3",
        4 => "4",
        5 => "5",
        6 => "6",
        7 => "7",
        8 => "8",
        9 => "9",
        10 => "a",
        11 => "b",
        12 => "c",
        13 => "d",
        14 => "e",
        _ => "f",
    };
    assert(text@ =~= seq![digit_char(digit as nat)]);
    text
}

/// An octet in decimal.
fn decimal_of(value: u8) -> (text: String)
    ensures
        text@ == decimal_text(value as nat),
{
    let mut text = String::new();
    proof {
        reveal_with_fuel(decimal_text, 3);
    }
    if value >= 100 {
        text.append(digit_str(value / 100));
    }
    if value >= 10 {
        text.append(digit_str(value / 10 % 10));
    }
    text.append(digit_str(value % 10));
    assert(text@ =~= decimal_text(value as nat));
    text
}

/// A segment in hexadecimal.
fn hex_of(value: u16) -> (text: String)
    ensures
        text@ == hex_text(value as nat),
{
    let mut text = String::new();
    proof {
        reveal_with_fuel(hex_text, 4);
    }
    if value >= 0x1000 {
        text.append(digit_str((value / 0x1000) as u8));
    }
    if value >= 0x100 {
        text.append(digit_str((value / 0x100 % 16) as u8));
    }
    if value >= 0x10 {
        text.append(digit_str((value / 0x10 % 16) as u8));
    }
    text.append(digit_str((value % 16) as u8));
    assert(text@ =~= hex_text(value as nat));
    text
}

/// Writes an IPv4 address as text.
pub fn ipv4_to_string(bits: u32) -> (text: String)
    ensures
        text@ == ipv4_text(bits),
{
    let mut parts: Vec<String> = Vec::new();
    parts.push(decimal_of((bits / 0x100_0000) as u8));
    parts.push(decimal_of((bits / 0x1_0000 % 0x100) as u8));
    parts.push(decimal_of((bits / 0x100 % 0x100) as u8));
    parts.push(decimal_of((bits % 0x100) as u8));
    let mut text = String::new();
    proof {
        reveal_strlit(".");
        assert("."@ =~= seq!['.']);
        let wanted = Seq::new(4, |i: int| decimal_text(octets(bits)[i] as nat));
        assert(texts(parts@).subrange(0, 4) =~= wanted);
        assert(text@ + joined(wanted, seq!['.']) == joined(wanted, seq!['.']));
    }
    append_joined(&mut text, &parts, 0, 4, ".");
    text
}

/// The eight segments of an IPv6 address, most significant first.
fn segments_of(bits: u128) -> (parts: Vec<u16>)
    ensures
        parts@ == segments(bits as nat, 8),
        parts.len() == 8,
{
    let mut parts: Vec<u16> = Vec::new();
    let mut rest: u128 = bits;
    let mut taken: usize = 0;
    assert(segments(bits as nat, 8) + parts@ == segments(bits as nat, 8));
    while taken < 8
        invariant
            taken <= 8,
            parts.len() == taken,
            segments(bits as nat, 8) == segments(rest as nat, (8 - taken) as nat) + parts@,
        decreases 8 - taken,
    {
        let low = (rest % 0x1_0000) as u16;
        proof {
            let shorter = segments(rest as nat / 0x1_0000, (8 - taken - 1) as nat);
            assert(segments(rest as nat, (8 - taken) as nat) == shorter.push(low));
            assert(shorter.push(low) + parts@ == shorter + parts@.insert(0, low));
        }
        parts.insert(0, low);
        rest = rest / 0x1_0000;
        taken += 1;
    }
    assert(segments(rest as nat, 0) + parts@ == parts@);
    parts
}

/// A run of zeros is as long as its zeros up to `end` and the run from
/// `end` on.
proof fn lemma_zero_run_split(parts: Seq<u16>, at: int, end: int)
    requires
        0 <= at <= end <= parts.len(),
        forall|i: int| at <= i < end ==> parts[i] == 0,
    ensures
        zero_run(parts, at) == (end - at) + zero_run(parts, end),
    decreases end - at,
{
    if at < end {
        lemma_zero_run_split(parts, at + 1, end);
    }
}

/// Counts the zero segments that follow one another from `at` on.
fn zero_run_at(parts: &Vec<u16>, at: usize) -> (run: usize)
    requires
        at <= parts.len(),
    ensures
        run == zero_run(parts@, at as int),
        at + run <= parts.len(),
{
    let mut end: usize = at;
    while end < parts.len() && parts[end] == 0
        invariant
            at <= end <= parts.len(),
            forall|i: int| at <= i < end ==> parts[i] == 0,
        decreases parts.len() - end,
    {
        end += 1;
    }
    proof {
        lemma_zero_run_split(parts@, at as int, end as int);
    }
    end - at
}

/// Finds where the first longest run of zero segments begins, and its
/// length.
fn longest_zero_run(parts: &Vec<u16>) -> (found: (usize, usize))
    requires
        parts.len() == 8,
    ensures
        found.0 == longest_zero_run_start(parts@, 8),
        found.1 == zero_run(parts@, found.0 as int),
        found.0 + found.1 <= 8,
{
    let mut best: usize = 0;
    let mut best_run: usize = zero_run_at(parts, 0);
    let mut upto: usize = 1;
    while upto < 8
        invariant
            1 <= upto <= 8,
            parts.len() == 8,
            best < upto,
            best == longest_zero_run_start(parts@, upto as nat),
            best_run == zero_run(parts@, best as int),
            best + best_run <= 8,
        decreases 8 - upto,
    {
        let run = zero_run_at(parts, upto);
        if run > best_run {
            best = upto;
            best_run = run;
        }
        upto += 1;
    }
    (best, best_run)
}

/// Writes an IPv6 address as text.
pub fn ipv6_to_string(bits: u128) -> (text: String)
    ensures
        text@ == ipv6_text(bits),
{
    proof {
        reveal_strlit("::ffff:");
        reveal_strlit("::");
        reveal_strlit(":");
        assert("::ffff:"@ =~= seq![':', ':', 'f', 'f', 'f', 'f', ':']);
        assert("::"@ =~= seq![':', ':']);
        assert(":"@ =~= seq![':']);
    }
    if bits / 0x1_0000_0000 == 0xffff {
        let mut text = "::ffff:".to_owned();
        text.append(ipv4_to_string((bits % 0x1_0000_0000) as u32).as_str());
        return text;
    }
    let parts = segments_of(bits);
    let mut hexes: Vec<String> = Vec::new();
    let mut i: usize = 0;
    while i < 8
        invariant
            i <= 8,
            parts.len() == 8,
            hexes.len() == i,
            forall|k: int| 0 <= k < i ==> hexes[k]@ == hex_text(parts[k] as nat),
        decreases 8 - i,
    {
        hexes.push(hex_of(parts[i]));
        i += 1;
    }
    let (start, run) = longest_zero_run(&parts);
    let mut text = String::new();
    if run > 1 {
        proof {
            assert(texts(hexes@).subrange(0, start as int) =~= hex_texts(parts@.take(start as int)));
            assert(texts(hexes@).subrange(start + run, 8) =~= hex_texts(
                parts@.skip(start + run),
            ));
            assert(text@ + joined(hex_texts(parts@.take(start as int)), seq![':']) == joined(
                hex_texts(parts@.take(start as int)),
                seq![':'],
            ));
        }
        append_joined(&mut text, &hexes, 0, start, ":");
        text.append("::");
        append_joined(&mut text, &hexes, start + run, 8, ":");
    } else {
        proof {
            assert(texts(hexes@).subrange(0, 8) =~= hex_texts(parts@));
            assert(text@ + joined(hex_texts(parts@), seq![':']) == joined(
                hex_texts(parts@),
                seq![':'],
            ));
        }
        append_joined(&mut text, &hexes, 0, 8, ":");
    }
    text
}

} // verus!
