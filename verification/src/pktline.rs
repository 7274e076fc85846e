//! Packet lines, the framing of git's smart protocol: four hexadecimal digits that give the
//! length of the packet, themselves counted, and then its data.

use vstd::prelude::*;
use vstd::string::*;
use vstd::utf8::*;
use crate::text::{
    hex_digit, hex_nat, hex_u128_text, push_bytes, zero_pad, zero_padded,
};

verus! {

/// The packet that ends a list of packets.
pub open spec fn flush() -> Seq<u8> {
    seq![48u8, 48u8, 48u8, 48u8]
}

/// The value of a hexadecimal digit.
pub open spec fn nibble(b: u8) -> Option<nat> {
    if 48 <= b <= 57 {
        Some((b - 48) as nat)
    } else if 97 <= b <= 102 {
        Some((b - 87) as nat)
    } else if 65 <= b <= 70 {
        Some((b - 55) as nat)
    } else {
        None
    }
}

/// The number that hexadecimal digits denote.
pub open spec fn hex_value(s: Seq<u8>) -> Option<nat>
    decreases s.len(),
{
    if s.len() == 0 {
        Some(0)
    } else {
        match (hex_value(s.drop_last()), nibble(s.last())) {
            (Some(n), Some(d)) => Some(n * 16 + d),
            _ => None,
        }
    }
}

/// The number that the four bytes before a packet's data denote; a plus sign may lead it.
pub open spec fn length_field(h: Seq<u8>) -> Option<nat> {
    if h.len() > 0 && h[0] == 43 {
        hex_value(h.skip(1))
    } else {
        hex_value(h)
    }
}

/// The length of the packet at the start of `b`, where one is there as a whole. A flush packet,
/// or anything else that is no packet with data, ends the list of packets.
pub open spec fn packet_len(b: Seq<u8>) -> Option<nat> {
    if b.len() < 4 {
        None
    } else {
        match length_field(b.take(4)) {
            Some(n) => if 4 <= n <= b.len() {
                Some(n)
            } else {
                None
            },
            None => None,
        }
    }
}

/// A packet that carries the given bytes.
pub open spec fn packet(data: Seq<u8>) -> Seq<u8> {
    encode_utf8(zero_padded(hex_nat((data.len() + 4) as nat), 4)) + data
}

/// The answer to a request for references over smart HTTP.
pub open spec fn advertisement(service: Seq<char>, output: Seq<u8>) -> Seq<u8> {
    packet(encode_utf8("# service="@ + service + "\n"@)) + flush() + output
}

/// The value of one hexadecimal digit.
pub fn nibble_of(b: u8) -> (r: Option<u8>)
    ensures
        match r {
            Some(d) => nibble(b) == Some(d as nat) && d < 16,
            None => nibble(b) is None,
        },
{
    if 48 <= b && b <= 57 {
        Some(b - 48)
    } else if 97 <= b && b <= 102 {
        Some(b - 87)
    } else if 65 <= b && b <= 70 {
        Some(b - 55)
    } else {
        None
    }
}

/// The length of the packet at position `pos`, where one is there as a whole.
pub fn packet_len_at(body: &[u8], pos: usize) -> (r: Option<usize>)
    requires
        pos <= body@.len(),
    ensures
        match r {
            Some(n) => packet_len(body@.skip(pos as int)) == Some(n as nat) && pos + n
                <= body@.len() && n >= 4,
            None => packet_len(body@.skip(pos as int)) is None,
        },
{
    let total: usize = body.len();
    let rest: usize = total - pos;
    if rest < 4 {
        return None;
    }
    let ghost b = body@.skip(pos as int);
    let ghost h = b.take(4);
    let from: usize = if body[pos] == 43 {
        1
    } else {
        0
    };
    let mut n: usize = 0;
    let mut i: usize = from;
    let ghost d = h.skip(from as int);
    proof {
        assert(from == 0 ==> h.skip(0) =~= h);
        assert(d.take(0) =~= Seq::<u8>::empty());
        assert(length_field(h) == hex_value(d));
    }
    while i < 4
        invariant
            from <= i <= 4,
            from <= 1,
            total == body@.len(),
            rest == total - pos,
            rest >= 4,
            pos <= body@.len(),
            b == body@.skip(pos as int),
            h == b.take(4),
            d == h.skip(from as int),
            hex_value(d.take(i - from)) == Some(n as nat),
            i == 0 ==> n == 0,
            i == 1 ==> n < 16,
            i == 2 ==> n < 256,
            i == 3 ==> n < 4096,
            i == 4 ==> n < 65536,
            length_field(h) == hex_value(d),
        decreases 4 - i,
    {
        let byte = body[pos + i];
        proof {
            assert(d.take(i - from + 1).drop_last() =~= d.take(i - from));
            assert(d.take(i - from + 1).last() == byte);
        }
        match nibble_of(byte) {
            Some(v) => {
                n = n * 16 + v as usize;
            },
            None => {
                proof {
                    lemma_hex_value_prefix(d, i - from + 1);
                }
                return None;
            },
        }
        i += 1;
    }
    proof {
        assert(d.take(4 - from) =~= d);
    }
    if n < 4 || n > rest {
        return None;
    }
    Some(n)
}

/// Where a prefix is no number, the whole is none.
proof fn lemma_hex_value_prefix(s: Seq<u8>, k: int)
    requires
        0 <= k <= s.len(),
        hex_value(s.take(k)) is None,
    ensures
        hex_value(s) is None,
    decreases s.len() - k,
{
    if k < s.len() {
        assert(s.take(k + 1).drop_last() =~= s.take(k));
        lemma_hex_value_prefix(s, k + 1);
    } else {
        assert(s.take(k) =~= s);
    }
}

/// Wrap git's advertise-refs output in the smart HTTP response format.
///
/// Format: pkt-line service header, flush-pkt, then the raw git output.
/// See https://git-scm.com/docs/http-protocol#_smart_server_response
pub fn wrap_advertisement(service: &str, git_output: &[u8]) -> (r: Vec<u8>)
    ensures
        r@ == advertisement(service@, git_output@),
{
    let mut header = String::from_str("# service=");
    header.append(service);
    header.append("\n");
    let n: u128 = header.as_str().as_bytes().len() as u128 + 4;
    let digits = zero_pad(hex_u128_text(n), 4);
    let mut body: Vec<u8> = Vec::new();
    push_bytes(&mut body, digits.as_str().as_bytes());
    push_bytes(&mut body, header.as_str().as_bytes());
    let zeros: [u8; 4] = [48, 48, 48, 48];
    push_bytes(&mut body, &zeros);
    push_bytes(&mut body, git_output);
    proof {
        assert(zeros@ =~= flush());
        assert(body@ =~= advertisement(service@, git_output@));
    }
    body
}

/// The four digits in front of a packet of `n` bytes.
pub open spec fn four_digits(n: nat) -> Seq<char> {
    seq![
        hex_digit(n / 4096),
        hex_digit((n / 256) % 16),
        hex_digit((n / 16) % 16),
        hex_digit(n % 16),
    ]
}

proof fn lemma_four_digits(n: nat)
    requires
        n < 65536,
    ensures
        zero_padded(hex_nat(n), 4) == four_digits(n),
{
    reveal_with_fuel(hex_nat, 5);
    reveal_with_fuel(zero_padded, 5);
    assert(n / 16 / 16 == n / 256);
    assert(n / 16 / 16 / 16 == n / 4096);
    assert(zero_padded(hex_nat(n), 4) =~= four_digits(n));
}

proof fn lemma_hex_digit(d: nat)
    requires
        d < 16,
    ensures
        nibble(hex_digit(d) as u8) == Some(d),
        '\0' <= hex_digit(d) <= '\u{7f}',
        hex_digit(d) as u8 != 43,
{
}

/// The length in front of a packet reads back as the number it was written from, for every length
/// that four digits can hold.
pub proof fn law_length_field_reads_back(n: nat)
    requires
        n < 65536,
    ensures
        encode_utf8(zero_padded(hex_nat(n), 4)).len() == 4,
        length_field(encode_utf8(zero_padded(hex_nat(n), 4))) == Some(n),
{
    lemma_four_digits(n);
    let c = four_digits(n);
    lemma_hex_digit(n / 4096);
    lemma_hex_digit((n / 256) % 16);
    lemma_hex_digit((n / 16) % 16);
    lemma_hex_digit(n % 16);
    assert(is_ascii_chars(c));
    is_ascii_chars_encode_utf8(c);
    let b = encode_utf8(c);
    assert(b =~= seq![c[0] as u8, c[1] as u8, c[2] as u8, c[3] as u8]);
    assert(b.drop_last() =~= seq![c[0] as u8, c[1] as u8, c[2] as u8]);
    assert(b.drop_last().drop_last() =~= seq![c[0] as u8, c[1] as u8]);
    assert(b.drop_last().drop_last().drop_last() =~= seq![c[0] as u8]);
    assert(b.drop_last().drop_last().drop_last().drop_last() =~= seq![]);
    reveal_with_fuel(hex_value, 5);
    assert(n / 4096 * 16 + (n / 256) % 16 == n / 256);
    assert(n / 256 * 16 + (n / 16) % 16 == n / 16);
}

/// A packet is read back as one packet of its own length, whatever follows it.
pub proof fn law_packet_is_read_back(data: Seq<u8>, rest: Seq<u8>)
    requires
        data.len() + 4 < 65536,
    ensures
        packet_len(packet(data) + rest) == Some((data.len() + 4) as nat),
        packet(data).len() == data.len() + 4,
        (packet(data) + rest).subrange(4, data.len() as int + 4) == data,
        (packet(data) + rest).skip(data.len() as int + 4) == rest,
{
    law_length_field_reads_back((data.len() + 4) as nat);
    let b = packet(data) + rest;
    assert(b.take(4) =~= encode_utf8(zero_padded(hex_nat((data.len() + 4) as nat), 4)));
    assert(b.subrange(4, data.len() as int + 4) =~= data);
    assert(b.skip(data.len() as int + 4) =~= rest);
}

/// A flush packet ends the list of packets.
pub proof fn law_flush_ends_packets(rest: Seq<u8>)
    ensures
        packet_len(flush() + rest) is None,
{
    let b = flush() + rest;
    assert(b.take(4) =~= flush());
    assert(flush().drop_last() =~= seq![48u8, 48u8, 48u8]);
    assert(flush().drop_last().drop_last() =~= seq![48u8, 48u8]);
    assert(flush().drop_last().drop_last().drop_last() =~= seq![48u8]);
    assert(flush().drop_last().drop_last().drop_last().drop_last() =~= seq![]);
    reveal_with_fuel(hex_value, 5);
}

/// A client that reads an advertisement packet by packet finds the service line, then the flush
/// packet that ends the first section, and then git's own output as it was.
pub proof fn law_advertisement_is_read_back(service: Seq<char>, output: Seq<u8>)
    requires
        encode_utf8("# service="@ + service + "\n"@).len() + 4 < 65536,
    ensures
        ({
            let line = encode_utf8("# service="@ + service + "\n"@);
            let n = (line.len() + 4) as nat;
            let a = advertisement(service, output);
            &&& packet_len(a) == Some(n)
            &&& a.subrange(4, n as int) == line
            &&& packet_len(a.skip(n as int)) is None
            &&& a.skip(n as int).take(4) == flush()
            &&& a.skip(n as int + 4) == output
        }),
{
    let line = encode_utf8("# service="@ + service + "\n"@);
    law_packet_is_read_back(line, flush() + output);
    law_flush_ends_packets(output);
    let a = advertisement(service, output);
    assert(a =~= packet(line) + (flush() + output));
    assert((flush() + output).take(4) =~= flush());
    assert(a.skip(line.len() as int + 8) =~= output);
}

/// A digit is read whether it is written small or large, and nothing else is a digit.
pub proof fn law_hexadecimal_digits(b: u8)
    ensures
        nibble(b) matches Some(d) ==> d < 16 && (b == 48 + d || b == 87 + d || b == 55 + d),
        48 <= b <= 57 ==> nibble(b) == Some((b - 48) as nat),
        97 <= b <= 102 ==> nibble(b) == Some((b - 97 + 10) as nat) && nibble((b - 32) as u8)
            == nibble(b),
        nibble(b) is None <==> !(48 <= b <= 57) && !(97 <= b <= 102) && !(65 <= b <= 70),
{
}

/// A packet is at least as long as its length, and not longer than what there is.
pub proof fn law_packets_are_whole(b: Seq<u8>)
    ensures
        packet_len(b) matches Some(n) ==> 4 <= n <= b.len(),
        b.len() < 4 ==> packet_len(b) is None,
{
}

} // verus!
