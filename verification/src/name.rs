//! Domain-name codec: validation of a dotted name against the DNS
//! length rules, encoding into length-prefixed wire labels, and
//! decoding of wire labels back into dotted text, including
//! compression pointers.
//!
//! The model works in bytes. A name's byte length is what the DNS
//! limits speak of, and `String::len` counts bytes, so the length
//! rules are stated over the UTF-8 bytes of the name.

use vstd::prelude::*;
use crate::errors::{DecodeError, DnsValidation};

verus! {

/// The UTF-8 bytes of a name, the unit in which the DNS length rules
/// are stated. For ASCII names this is the character sequence itself.
pub open spec fn name_bytes(s: Seq<char>) -> Seq<u8> {
    vstd::utf8::encode_utf8(s)
}

/// Index of the first dot in `s`, or `s.len()` if there is none.
pub open spec fn first_dot(s: Seq<u8>) -> nat
    decreases s.len(),
{
    if s.len() == 0 {
        0
    } else if s[0] == 46u8 {
        0
    } else {
        1 + first_dot(s.skip(1))
    }
}

/// Every label (maximal dot-free run) of `s` is at most 63 bytes.
pub open spec fn labels_ok(s: Seq<u8>) -> bool
    decreases s.len(),
{
    let k = first_dot(s);
    if k >= s.len() {
        s.len() <= 63
    } else {
        k <= 63 && labels_ok(s.skip(k as int + 1))
    }
}

/// The validation verdict for a name: the total length rule is checked
/// first, then the per-label rule.
pub open spec fn validate_spec(s: Seq<u8>) -> DnsValidation {
    if s.len() > 253 {
        DnsValidation::InvalidTotalLength
    } else if !labels_ok(s) {
        DnsValidation::InvalidLabelLength
    } else {
        DnsValidation::Valid
    }
}

/// The label section of the wire encoding of `s`: each label emitted as
/// a length byte followed by its bytes. The terminating zero octet is
/// added by `encoded_name`.
pub open spec fn encoded_labels(s: Seq<u8>) -> Seq<u8>
    decreases s.len(),
{
    let k = first_dot(s);
    if k >= s.len() {
        seq![k as u8] + s
    } else {
        seq![k as u8] + s.take(k as int) + encoded_labels(s.skip(k as int + 1))
    }
}

/// The wire encoding of a name: its labels, terminated by a zero octet.
pub open spec fn encoded_name(s: Seq<u8>) -> Seq<u8> {
    encoded_labels(s) + seq![0u8]
}

/// `first_dot` is characterised by a dot-free prefix followed by a dot
/// (or the end of the sequence).
pub proof fn lemma_first_dot_at(s: Seq<u8>, k: int)
    requires
        0 <= k <= s.len(),
        forall|j: int| 0 <= j < k ==> s[j] != 46u8,
        k < s.len() ==> s[k] == 46u8,
    ensures
        first_dot(s) == k,
    decreases k,
{
    if k == 0 {
        // either the sequence is empty or it starts with a dot
    } else {
        assert(s[0] != 46u8);
        assert forall|j: int| 0 <= j < k - 1 implies s.skip(1)[j] != 46u8 by {
            assert(s.skip(1)[j] == s[j + 1]);
        }
        if k - 1 < s.skip(1).len() {
            assert(s.skip(1)[k - 1] == s[k]);
        }
        lemma_first_dot_at(s.skip(1), k - 1);
    }
}

/// Validates a domain name against the DNS length rules: at most 253
/// bytes in total, and at most 63 bytes per label.
pub fn validate_dns_name(dns_name: &String) -> (r: DnsValidation)
    ensures
        r == validate_spec(name_bytes(dns_name@)),
{
    let bytes: &[u8] = dns_name.as_str().as_bytes();
    let ghost b: Seq<u8> = bytes@;
    let n: usize = bytes.len();
    if n > 253 {
        return DnsValidation::InvalidTotalLength;
    }
    let mut i: usize = 0;
    let mut start: usize = 0;
    proof {
        assert(b.skip(0) =~= b);
    }
    while i < n
        invariant
            bytes@ == b,
            b == name_bytes(dns_name@),
            n == b.len(),
            n <= 253,
            start <= i <= n,
            labels_ok(b) == labels_ok(b.skip(start as int)),
            forall|j: int| start <= j < i ==> b[j] != 46u8,
        decreases n - i,
    {
        if bytes[i] == 46 {
            proof {
                let s = b.skip(start as int);
                assert forall|j: int| 0 <= j < i - start implies s[j] != 46u8 by {
                    assert(s[j] == b[start + j]);
                }
                assert(s[i - start] == b[i as int]);
                lemma_first_dot_at(s, i - start);
            }
            if i - start > 63 {
                proof {
                    let s = b.skip(start as int);
                    assert(first_dot(s) < s.len());
                    assert(!labels_ok(s));
                }
                return DnsValidation::InvalidLabelLength;
            }
            proof {
                assert(b.skip(start as int).skip(i - start + 1) =~= b.skip(i as int + 1));
            }
            start = i + 1;
        }
        i = i + 1;
    }
    proof {
        let s = b.skip(start as int);
        assert forall|j: int| 0 <= j < n - start implies s[j] != 46u8 by {
            assert(s[j] == b[start + j]);
        }
        lemma_first_dot_at(s, n - start);
    }
    if n - start > 63 {
        return DnsValidation::InvalidLabelLength;
    }
    DnsValidation::Valid
}

/// Encodes a domain name into wire labels: each dot-separated segment
/// becomes a length byte followed by its bytes, terminated by a zero
/// octet. The name is assumed validated; an overlong label's length
/// byte wraps, as the length rules are checked before encoding.
pub fn encode_dns_name(name: &str) -> (r: Vec<u8>)
    ensures
        r@ == encoded_name(name_bytes(name@)),
{
    let bytes: &[u8] = name.as_bytes();
    let ghost b: Seq<u8> = bytes@;
    let n: usize = bytes.len();
    let mut out: Vec<u8> = Vec::new();
    let mut start: usize = 0;
    proof {
        assert(b.skip(0) =~= b);
    }
    loop
        invariant_except_break
            bytes@ == b,
            b == name_bytes(name@),
            n == b.len(),
            start <= n,
            encoded_labels(b) == out@ + encoded_labels(b.skip(start as int)),
        ensures
            out@ == encoded_labels(b),
        decreases n - start,
    {
        let mut j: usize = start;
        while j < n && bytes[j] != 46
            invariant
                bytes@ == b,
                n == b.len(),
                start <= j <= n,
                forall|t: int| start <= t < j ==> b[t] != 46u8,
            decreases n - j,
        {
            j = j + 1;
        }
        proof {
            let s = b.skip(start as int);
            assert forall|t: int| 0 <= t < j - start implies s[t] != 46u8 by {
                assert(s[t] == b[start + t]);
            }
            if j < n {
                assert(s[j - start] == b[j as int]);
            }
            lemma_first_dot_at(s, j - start);
        }
        let ghost out0: Seq<u8> = out@;
        #[verifier::truncate]
        let len_byte: u8 = (j - start) as u8;
        out.push(len_byte);
        let mut t: usize = start;
        while t < j
            invariant
                bytes@ == b,
                n == b.len(),
                start <= t <= j <= n,
                out@ == out0 + seq![len_byte] + b.subrange(start as int, t as int),
            decreases j - t,
        {
            out.push(bytes[t]);
            proof {
                assert(out@ =~= out0 + seq![len_byte] + b.subrange(start as int, t as int + 1));
            }
            t = t + 1;
        }
        proof {
            let s = b.skip(start as int);
            let k = first_dot(s);
            assert(k == j - start);
            assert(s.take(k as int) =~= b.subrange(start as int, j as int));
            if j == n {
                assert(s =~= b.subrange(start as int, j as int));
                assert(encoded_labels(s) == seq![len_byte] + s);
                assert(out@ =~= out0 + encoded_labels(s));
            } else {
                assert(s.skip(k as int + 1) =~= b.skip(j as int + 1));
                assert(out@ =~= out0 + (seq![len_byte] + s.take(k as int)));
            }
        }
        if j == n {
            break;
        }
        start = j + 1;
    }
    out.push(0);
    proof {
        assert(out@ =~= encoded_labels(b) + seq![0u8]);
    }
    out
}

/// The name read from `buf` starting at `pos`, as dotted text (each
/// label followed by a dot), together with the cursor position just
/// past the name at the original position: past the terminating zero
/// octet, or past the first compression pointer if one was followed.
///
/// A length byte with both top bits set is a compression pointer whose
/// remaining 14 bits are an absolute offset; reading continues there.
/// `fuel` bounds the number of pointer jumps, so that cyclic or
/// forward-referencing pointer chains fail with `TooManyPointers`
/// instead of looping. Every read is bounds-checked.
pub open spec fn parse_name_spec(buf: Seq<u8>, pos: int, fuel: nat) -> Result<
    (Seq<u8>, int),
    DecodeError,
>
    decreases fuel, buf.len() - pos,
{
    if pos < 0 || pos >= buf.len() {
        Err(DecodeError::BufferUnderrun)
    } else {
        let b = buf[pos] as int;
        if b == 0 {
            Ok((seq![], pos + 1))
        } else if b >= 192 {
            if pos + 1 >= buf.len() {
                Err(DecodeError::BufferUnderrun)
            } else if fuel == 0 {
                Err(DecodeError::TooManyPointers)
            } else {
                let target = (b - 192) * 256 + buf[pos + 1];
                match parse_name_spec(buf, target, (fuel - 1) as nat) {
                    Ok((name, _)) => Ok((name, pos + 2)),
                    Err(e) => Err(e),
                }
            }
        } else if b < 64 {
            if pos + 1 + b > buf.len() {
                Err(DecodeError::BufferUnderrun)
            } else {
                match parse_name_spec(buf, pos + 1 + b, fuel) {
                    Ok((rest, end)) => Ok(
                        (buf.subrange(pos + 1, pos + 1 + b) + seq![46u8] + rest, end),
                    ),
                    Err(e) => Err(e),
                }
            }
        } else {
            Err(DecodeError::InvalidLabel)
        }
    }
}

/// A name whose first byte is a compression pointer reads as exactly
/// the name at the pointer's target: the compressed form and the
/// expanded form at the target decode to the identical dotted text,
/// and the cursor consumes just the two pointer bytes.
pub proof fn lemma_pointer_reads_target(buf: Seq<u8>, pos: int, fuel: nat, target: int)
    requires
        0 <= pos,
        pos + 1 < buf.len(),
        buf[pos] >= 192,
        fuel > 0,
        target == (buf[pos] - 192) * 256 + buf[pos + 1],
    ensures
        match (parse_name_spec(buf, pos, fuel), parse_name_spec(buf, target, (fuel - 1) as nat)) {
            (Ok((name, end)), Ok((target_name, _))) => name == target_name && end == pos + 2,
            (Err(e), Err(target_e)) => e == target_e,
            _ => false,
        },
{
}

/// Every label of `s` is nonempty and at most 63 bytes: the names
/// whose wire encoding is read back unchanged.
pub open spec fn labels_wf(s: Seq<u8>) -> bool
    decreases s.len(),
{
    let k = first_dot(s);
    if k >= s.len() {
        0 < s.len() <= 63
    } else {
        0 < k <= 63 && labels_wf(s.skip(k as int + 1))
    }
}

/// `first_dot` stays within the sequence, lands on a dot when it is
/// not the end, and skips over no dot.
proof fn lemma_first_dot_props(s: Seq<u8>)
    ensures
        first_dot(s) <= s.len(),
        first_dot(s) < s.len() ==> s[first_dot(s) as int] == 46u8,
        forall|j: int| 0 <= j < first_dot(s) ==> s[j] != 46u8,
    decreases s.len(),
{
    if s.len() != 0 && s[0] != 46u8 {
        lemma_first_dot_props(s.skip(1));
        let k1 = first_dot(s.skip(1));
        if k1 < s.skip(1).len() {
            assert(s.skip(1)[k1 as int] == s[k1 as int + 1]);
        }
        assert forall|j: int| 0 <= j < first_dot(s) implies s[j] != 46u8 by {
            if j > 0 {
                assert(s.skip(1)[j - 1] == s[j]);
            }
        }
    }
}

/// Reading encoded labels embedded in a larger buffer: if the bytes at
/// `pos` are the label section of `s` followed by a zero octet, the
/// name reads back as `s` in dotted text, consuming exactly those
/// bytes.
proof fn lemma_parse_encoded_labels(buf: Seq<u8>, pos: int, s: Seq<u8>, fuel: nat)
    requires
        labels_wf(s),
        0 <= pos,
        pos + encoded_labels(s).len() + 1 <= buf.len(),
        buf.subrange(pos, pos + encoded_labels(s).len()) == encoded_labels(s),
        buf[pos + encoded_labels(s).len()] == 0,
    ensures
        parse_name_spec(buf, pos, fuel) == Ok::<_, DecodeError>(
            (s + seq![46u8], pos + encoded_labels(s).len() + 1),
        ),
    decreases s.len(),
{
    let k = first_dot(s);
    let el = encoded_labels(s);
    lemma_first_dot_props(s);
    assert(buf[pos] == el[0]);
    assert(el[0] == k as u8);
    if k >= s.len() {
        // a single label: [k] ++ s, then the terminator
        assert(el =~= seq![k as u8] + s);
        assert(el.len() == 1 + s.len());
        assert(buf.subrange(pos + 1, pos + 1 + s.len() as int) =~= s) by {
            assert forall|j: int| 0 <= j < s.len() implies buf[pos + 1 + j] == s[j] by {
                assert(buf[pos + 1 + j] == el[1 + j]);
            }
        }
        assert(buf[pos + 1 + s.len()] == 0);
        assert(parse_name_spec(buf, pos + 1 + s.len(), fuel) == Ok::<_, DecodeError>(
            (Seq::<u8>::empty(), pos + 1 + s.len() + 1),
        ));
        assert(s + seq![46u8] + Seq::<u8>::empty() =~= s + seq![46u8]);
        assert(s.take(s.len() as int) =~= s);
    } else {
        let rest = s.skip(k as int + 1);
        let el_rest = encoded_labels(rest);
        assert(el =~= seq![k as u8] + s.take(k as int) + el_rest);
        assert(el.len() == 1 + k + el_rest.len());
        let pos2 = pos + 1 + k;
        assert(buf.subrange(pos + 1, pos2) =~= s.take(k as int)) by {
            assert forall|j: int| 0 <= j < k implies buf[pos + 1 + j] == s[j] by {
                assert(buf[pos + 1 + j] == el[1 + j]);
            }
        }
        assert(buf.subrange(pos2, pos2 + el_rest.len()) =~= el_rest) by {
            assert forall|j: int| 0 <= j < el_rest.len() implies buf[pos2 + j] == el_rest[j] by {
                assert(buf[pos2 + j] == el[1 + k + j]);
            }
        }
        assert(buf[pos2 + el_rest.len()] == 0) by {
            assert(pos2 + el_rest.len() == pos + el.len());
        }
        lemma_parse_encoded_labels(buf, pos2, rest, fuel);
        assert(s[k as int] == 46u8);
        assert(s.take(k as int) + seq![46u8] + (rest + seq![46u8]) =~= s + seq![46u8]);
    }
}

/// Round trip: the wire encoding of a name whose labels are all
/// nonempty and at most 63 bytes decodes back to the same name in
/// dotted text, with the cursor consuming the whole encoding. The
/// bound on pointer jumps never bites: the encoder emits no pointers.
pub proof fn lemma_name_round_trip(s: Seq<u8>, fuel: nat)
    requires
        labels_wf(s),
    ensures
        parse_name_spec(encoded_name(s), 0, fuel) == Ok::<_, DecodeError>(
            (s + seq![46u8], encoded_name(s).len() as int),
        ),
{
    let buf = encoded_name(s);
    assert(buf.subrange(0, encoded_labels(s).len() as int) =~= encoded_labels(s));
    assert(buf[encoded_labels(s).len() as int] == 0);
    lemma_parse_encoded_labels(buf, 0, s, fuel);
}

/// Reads a name from `buffer` at `offset`, following compression
/// pointers, and returns the dotted text together with the cursor
/// position just past the name at the original offset.
pub fn decode_name(buffer: &Vec<u8>, offset: usize) -> (r: Result<(Vec<u8>, usize), DecodeError>)
    ensures
        match r {
            Ok((name, end)) => parse_name_spec(buffer@, offset as int, buffer@.len() as nat)
                == Ok::<_, DecodeError>((name@, end as int)) && offset < end <= buffer@.len(),
            Err(e) => parse_name_spec(buffer@, offset as int, buffer@.len() as nat) == Err::<
                (Seq<u8>, int),
                _,
            >(e),
        },
{
    let ghost fuel0: nat = buffer@.len() as nat;
    let n: usize = buffer.len();
    if offset >= n {
        return Err(DecodeError::BufferUnderrun);
    }
    let mut pos: usize = offset;
    let mut fuel: usize = n;
    let mut out: Vec<u8> = Vec::new();
    let mut jumped: bool = false;
    let mut end: usize = 0;
    proof {
        match parse_name_spec(buffer@, offset as int, fuel0) {
            Ok((rest, e)) => {
                assert(out@ + rest =~= rest);
            },
            Err(err) => {},
        }
    }
    loop
        invariant
            n == buffer@.len(),
            fuel0 == buffer@.len() as nat,
            pos <= n,
            fuel <= n,
            jumped ==> offset < end <= n,
            !jumped ==> offset <= pos,
            match parse_name_spec(buffer@, pos as int, fuel as nat) {
                Ok((rest, e)) => parse_name_spec(buffer@, offset as int, fuel0) == Ok::<
                    _,
                    DecodeError,
                >((out@ + rest, if jumped { end as int } else { e })),
                Err(err) => parse_name_spec(buffer@, offset as int, fuel0) == Err::<
                    (Seq<u8>, int),
                    _,
                >(err),
            },
        decreases fuel, n - pos,
    {
        if pos >= n {
            return Err(DecodeError::BufferUnderrun);
        }
        let b = buffer[pos];
        if b == 0 {
            proof {
                assert(out@ + Seq::<u8>::empty() =~= out@);
            }
            let final_end = if jumped {
                end
            } else {
                pos + 1
            };
            return Ok((out, final_end));
        } else if b >= 192 {
            if pos + 1 >= n {
                return Err(DecodeError::BufferUnderrun);
            }
            if fuel == 0 {
                return Err(DecodeError::TooManyPointers);
            }
            let target = ((b - 192) as usize) * 256 + (buffer[pos + 1] as usize);
            if !jumped {
                jumped = true;
                end = pos + 2;
            }
            if target >= n {
                proof {
                    assert(parse_name_spec(buffer@, target as int, (fuel - 1) as nat) == Err::<
                        (Seq<u8>, int),
                        _,
                    >(DecodeError::BufferUnderrun));
                }
                return Err(DecodeError::BufferUnderrun);
            }
            fuel = fuel - 1;
            pos = target;
        } else if b < 64 {
            let label_len = b as usize;
            if label_len > n - pos - 1 {
                return Err(DecodeError::BufferUnderrun);
            }
            let ghost out0: Seq<u8> = out@;
            let mut t: usize = pos + 1;
            while t < pos + 1 + label_len
                invariant
                    n == buffer@.len(),
                    pos + 1 <= t <= pos + 1 + label_len <= n,
                    out@ == out0 + buffer@.subrange(pos + 1, t as int),
                decreases pos + 1 + label_len - t,
            {
                out.push(buffer[t]);
                proof {
                    assert(out@ =~= out0 + buffer@.subrange(pos + 1, t + 1));
                }
                t = t + 1;
            }
            out.push(46);
            proof {
                assert(out@ =~= out0 + (buffer@.subrange(
                    pos as int + 1,
                    pos + 1 + label_len,
                ) + seq![46u8]));
                let pos2 = pos + 1 + label_len;
                match parse_name_spec(buffer@, pos2 as int, fuel as nat) {
                    Ok((rest, e)) => {
                        assert(out0 + (buffer@.subrange(pos as int + 1, pos2 as int) + seq![46u8])
                            + rest =~= out0 + (buffer@.subrange(pos as int + 1, pos2 as int)
                            + seq![46u8] + rest));
                    },
                    Err(err) => {},
                }
            }
            pos = pos + 1 + label_len;
        } else {
            return Err(DecodeError::InvalidLabel);
        }
    }
}

} // verus!
