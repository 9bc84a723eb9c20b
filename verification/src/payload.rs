//! What serialized histograms must look like before they are read.

use vstd::prelude::*;

verus! {

/// The mark of a compressed histogram.
pub const COMPRESSED_COOKIE: u64 = 0x1c84_9314;

/// The bytes before the counts of a histogram that is not compressed.
pub const HEADER_BYTES: usize = 40;

/// The longest form of a number among the counts.
pub const NUMBER_BYTES: usize = 9;

/// The longest payload that the machine can hold.
pub const LONGEST_BYTES: usize = usize::MAX / 2;

/// What `flate2::read::ZlibDecoder` reads from bytes first, as many bytes as are asked for.
pub uninterp spec fn inflated_front(bytes: Seq<u8>, len: nat) -> Option<Seq<u8>>;

/// `flate2::read::ZlibDecoder`, read for a number of bytes: the result is the one that
/// `inflated_front` names, of that length, and `None` where the decoder does not come that far.
/// What follows those bytes is not read.
#[verifier::external_body]
fn inflate_front(bytes: &Vec<u8>, len: usize) -> (r: Option<Vec<u8>>)
    requires
        len <= LONGEST_BYTES,
    ensures
        r is Some <==> inflated_front(bytes@, len as nat) is Some,
        r matches Some(front) ==> Some(front@) == inflated_front(bytes@, len as nat) && front.len()
            == len,
{
    let mut front = vec![0; len];
    let mut decoder = flate2::read::ZlibDecoder::new(bytes.as_slice());
    std::io::Read::read_exact(&mut decoder, &mut front).ok().map(|_| front)
}

/// The number in four bytes, the highest first.
pub open spec fn big_endian(bytes: Seq<u8>, at: int) -> nat {
    (((bytes[at] * 256 + bytes[at + 1]) * 256 + bytes[at + 2]) * 256 + bytes[at + 3]) as nat
}

fn read_big_endian(bytes: &Vec<u8>, at: usize) -> (r: u64)
    requires
        at + 4 <= bytes.len(),
    ensures
        r == big_endian(bytes@, at as int),
        r <= u32::MAX,
{
    ((bytes[at] as u64 * 256 + bytes[at + 1] as u64) * 256 + bytes[at + 2] as u64) * 256
        + bytes[at + 3] as u64
}

/// A number of bytes from a place on, or as many as there are.
pub open spec fn clipped(bytes: Seq<u8>, from: int, len: nat) -> Seq<u8> {
    bytes.subrange(
        from,
        if from + len <= bytes.len() {
            from + len
        } else {
            bytes.len() as int
        },
    )
}

fn clip(bytes: &Vec<u8>, from: usize, len: u64) -> (r: Vec<u8>)
    requires
        from <= bytes.len(),
    ensures
        r@ == clipped(bytes@, from as int, len as nat),
{
    let rest: usize = bytes.len() - from;
    let end: usize = if len <= rest as u64 {
        from + len as usize
    } else {
        bytes.len()
    };
    let mut out: Vec<u8> = Vec::new();
    let mut i: usize = from;
    while i < end
        invariant
            from <= i <= end <= bytes.len(),
            out@ == bytes@.subrange(from as int, i as int),
        decreases end - i,
    {
        out.push(bytes[i]);
        proof {
            assert(bytes@.subrange(from as int, i + 1) =~= bytes@.subrange(
                from as int,
                i as int,
            ).push(bytes@[i as int]));
        }
        i += 1;
    }
    out
}

/// The bytes that follow the first of a number: each byte from 128 on has one, up to the longest
/// form.
pub open spec fn further_bytes(counts: Seq<u8>, at: nat, seen: nat) -> nat
    decreases NUMBER_BYTES - seen,
{
    if seen + 1 >= NUMBER_BYTES || at + seen >= counts.len() || counts[(at + seen) as int] < 128 {
        0
    } else {
        1 + further_bytes(counts, at, seen + 1)
    }
}

/// Whether the number at a place is the one whose negative cannot be represented: the longest
/// form, with every bit set.
pub open spec fn is_extreme(counts: Seq<u8>, at: nat) -> bool {
    at + NUMBER_BYTES <= counts.len() && forall|k: int|
        at <= k < at + NUMBER_BYTES ==> #[trigger] counts[k] == 255
}

/// Whether one of the numbers from a place on is extreme.
pub open spec fn holds_extreme(counts: Seq<u8>, at: nat) -> bool
    decreases
            (if at < counts.len() {
                counts.len() - at
            } else {
                0
            }),
{
    if at >= counts.len() {
        false
    } else {
        is_extreme(counts, at) || holds_extreme(counts, at + 1 + further_bytes(counts, at, 0))
    }
}

/// The bytes of a histogram up to the end of its counts, as its header declares them.
pub open spec fn declared_bytes(header: Seq<u8>) -> nat {
    HEADER_BYTES as nat + big_endian(header, 4)
}

/// The form of a histogram that is not compressed: the header, and the counts that it declares.
pub open spec fn plain_form(bytes: Seq<u8>) -> Option<Seq<u8>> {
    if bytes.len() >= 8 && big_endian(bytes, 0) == COMPRESSED_COOKIE {
        let stream = clipped(bytes, 8, big_endian(bytes, 4));
        match inflated_front(stream, HEADER_BYTES as nat) {
            None => None,
            Some(header) => if declared_bytes(header) > LONGEST_BYTES {
                None
            } else {
                inflated_front(stream, declared_bytes(header))
            },
        }
    } else {
        Some(bytes)
    }
}

/// Whether bytes can be read as a histogram or refused: the header and the counts that it
/// declares can be decompressed and held, and none of the numbers is extreme.
pub open spec fn readable(bytes: Seq<u8>) -> bool {
    match plain_form(bytes) {
        None => false,
        Some(plain) => plain.len() < HEADER_BYTES || (declared_bytes(plain) <= LONGEST_BYTES
            && !holds_extreme(clipped(plain, HEADER_BYTES as int, big_endian(plain, 4)), 0)),
    }
}

fn count_further_bytes(counts: &Vec<u8>, at: usize) -> (r: usize)
    requires
        at < counts.len(),
    ensures
        r == further_bytes(counts@, at as nat, 0),
        r < NUMBER_BYTES,
        at + r <= counts.len(),
{
    let mut seen: usize = 0;
    while seen + 1 < NUMBER_BYTES && seen < counts.len() - at && counts[at + seen] >= 128
        invariant
            at < counts.len(),
            seen < NUMBER_BYTES,
            at + seen <= counts.len(),
            further_bytes(counts@, at as nat, 0) == seen + further_bytes(
                counts@,
                at as nat,
                seen as nat,
            ),
        decreases NUMBER_BYTES - seen,
    {
        seen += 1;
    }
    seen
}

fn extreme_at(counts: &Vec<u8>, at: usize) -> (r: bool)
    requires
        at < counts.len(),
    ensures
        r == is_extreme(counts@, at as nat),
{
    if counts.len() - at < NUMBER_BYTES {
        return false;
    }
    let mut k: usize = 0;
    while k < NUMBER_BYTES
        invariant
            k <= NUMBER_BYTES,
            at + NUMBER_BYTES <= counts.len(),
            forall|j: int| at <= j < at + k ==> #[trigger] counts@[j] == 255,
        decreases NUMBER_BYTES - k,
    {
        if counts[at + k] != 255 {
            assert(counts@[at + k] != 255);
            return false;
        }
        k += 1;
    }
    true
}

fn any_extreme(counts: &Vec<u8>) -> (r: bool)
    ensures
        r == holds_extreme(counts@, 0),
{
    let mut at: usize = 0;
    while at < counts.len()
        invariant
            at <= counts.len(),
            holds_extreme(counts@, 0) == holds_extreme(counts@, at as nat),
        decreases counts.len() - at,
    {
        if extreme_at(counts, at) {
            return true;
        }
        let further: usize = count_further_bytes(counts, at);
        if further >= counts.len() - at {
            assert(!holds_extreme(counts@, (at + 1 + further) as nat));
            return false;
        }
        at = at + 1 + further;
    }
    false
}

fn declared(header: &Vec<u8>) -> (r: Option<usize>)
    requires
        header.len() >= HEADER_BYTES,
    ensures
        r is Some <==> declared_bytes(header@) <= LONGEST_BYTES,
        r matches Some(len) ==> len == declared_bytes(header@),
{
    let len: u64 = HEADER_BYTES as u64 + read_big_endian(header, 4);
    if len <= LONGEST_BYTES as u64 {
        Some(len as usize)
    } else {
        None
    }
}

fn read_plain_form(bytes: &Vec<u8>) -> (r: Option<Vec<u8>>)
    ensures
        r is Some <==> plain_form(bytes@) is Some,
        r matches Some(plain) ==> Some(plain@) == plain_form(bytes@),
{
    if bytes.len() < 8 || read_big_endian(bytes, 0) != COMPRESSED_COOKIE {
        proof {
            assert(clipped(bytes@, 0, bytes@.len()) =~= bytes@);
        }
        return Some(clip(bytes, 0, bytes.len() as u64));
    }
    let stream = clip(bytes, 8, read_big_endian(bytes, 4));
    match inflate_front(&stream, HEADER_BYTES) {
        None => None,
        Some(header) => match declared(&header) {
            None => None,
            Some(len) => inflate_front(&stream, len),
        },
    }
}

/// Tells whether bytes can be read as a histogram or refused.
pub fn is_readable(bytes: &Vec<u8>) -> (r: bool)
    ensures
        r == readable(bytes@),
{
    let plain = match read_plain_form(bytes) {
        Some(plain) => plain,
        None => {
            return false;
        },
    };
    if plain.len() < HEADER_BYTES {
        return true;
    }
    declared(&plain).is_some() && !any_extreme(
        &clip(&plain, HEADER_BYTES, read_big_endian(&plain, 4)),
    )
}

} // verus!
