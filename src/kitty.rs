use vstd::prelude::*;
use base64::Engine;
use crate::pixel::Pixel;

verus! {

/// The four bytes of a pixel, in RGBA order.
pub open spec fn pixel_bytes(p: Pixel) -> Seq<u8> {
    seq![p.r, p.g, p.b, p.a]
}

/// The bytes of a row of pixels, left to right.
pub open spec fn row_bytes(row: Seq<Pixel>) -> Seq<u8>
    decreases row.len(),
{
    if row.len() == 0 {
        Seq::empty()
    } else {
        row_bytes(row.drop_last()) + pixel_bytes(row.last())
    }
}

/// The bytes of rows of pixels, top to bottom.
pub open spec fn grid_bytes(rows: Seq<Vec<Pixel>>) -> Seq<u8>
    decreases rows.len(),
{
    if rows.len() == 0 {
        Seq::empty()
    } else {
        grid_bytes(rows.drop_last()) + row_bytes(rows.last()@)
    }
}

/// The opaque black that the bitmap protocol shows where the picture has no
/// pixel.
pub fn opaque_black() -> (p: Pixel)
    ensures
        p == (Pixel { r: 0, g: 0, b: 0, a: 255 }),
{
    Pixel { r: 0, g: 0, b: 0, a: 255 }
}

/// The RGBA bytes of a picture, row after row.
pub fn rgba_bytes(rows: &Vec<Vec<Pixel>>) -> (bytes: Vec<u8>)
    ensures
        bytes@ == grid_bytes(rows@),
{
    let mut bytes: Vec<u8> = Vec::new();
    let mut y: usize = 0;
    while y < rows.len()
        invariant
            y <= rows@.len(),
            bytes@ == grid_bytes(rows@.take(y as int)),
        decreases rows@.len() - y,
    {
        let row = &rows[y];
        let ghost start = bytes@;
        let mut x: usize = 0;
        while x < row.len()
            invariant
                y < rows@.len(),
                row@ == rows@[y as int]@,
                x <= row@.len(),
                bytes@ == start + row_bytes(row@.take(x as int)),
            decreases row@.len() - x,
        {
            let p = row[x];
            bytes.push(p.r);
            bytes.push(p.g);
            bytes.push(p.b);
            bytes.push(p.a);
            assert(row@.take(x + 1).drop_last() =~= row@.take(x as int));
            assert(bytes@ =~= start + row_bytes(row@.take(x + 1)));
            x += 1;
        }
        assert(row@.take(row@.len() as int) =~= row@);
        assert(rows@.take(y + 1).drop_last() =~= rows@.take(y as int));
        y += 1;
    }
    assert(rows@.take(rows@.len() as int) =~= rows@);
    bytes
}

/// What the padded standard base64 alphabet makes of `bytes`.
pub uninterp spec fn base64_of(bytes: Seq<u8>) -> Seq<u8>;

/// The length of the padded base64 text of `n` bytes.
pub open spec fn base64_len(n: nat) -> nat {
    4 * ((n + 2) / 3)
}

/// Relies on base64's `STANDARD` engine and its `Engine::encode`: the padded
/// standard base64 text of the bytes, four characters for each started
/// group of three bytes. `encode` panics where that length overflows.
#[verifier::external_body]
fn encode_base64(bytes: &Vec<u8>) -> (encoded: Vec<u8>)
    requires
        base64_len(bytes@.len()) <= usize::MAX,
    ensures
        encoded@ == base64_of(bytes@),
        encoded@.len() == base64_len(bytes@.len()),
{
    base64::engine::general_purpose::STANDARD.encode(bytes).into_bytes()
}

/// The bytes of the decimal digits of `n`, most significant first.
pub open spec fn decimal(n: nat) -> Seq<u8>
    decreases n,
{
    if n < 10 {
        seq![(48 + n) as u8]
    } else {
        decimal(n / 10).push((48 + n % 10) as u8)
    }
}

fn push_decimal(out: &mut Vec<u8>, n: u64)
    ensures
        final(out)@ == old(out)@ + decimal(n as nat),
    decreases n,
{
    if n >= 10 {
        push_decimal(out, n / 10);
    }
    out.push(48 + (n % 10) as u8);
    assert(out@ =~= old(out)@ + decimal(n as nat));
}

fn push_all(out: &mut Vec<u8>, bytes: &Vec<u8>)
    ensures
        final(out)@ == old(out)@ + bytes@,
{
    let mut i: usize = 0;
    while i < bytes.len()
        invariant
            i <= bytes@.len(),
            out@ == old(out)@ + bytes@.take(i as int),
        decreases bytes@.len() - i,
    {
        out.push(bytes[i]);
        assert(bytes@.take(i + 1) =~= bytes@.take(i as int).push(bytes@[i as int]));
        i += 1;
    }
    assert(bytes@.take(bytes@.len() as int) =~= bytes@);
}

/// The most base64 bytes one command carries.
pub const CHUNK_SIZE: usize = 4096;

/// How many commands carry `n` bytes of base64.
pub open spec fn chunk_count(n: nat) -> nat {
    ((n + CHUNK_SIZE - 1) / (CHUNK_SIZE as int)) as nat
}

/// "ESC _ G": the start of a graphics command.
pub open spec fn command_start() -> Seq<u8> {
    seq![27u8, 95, 71]
}

/// "ESC \": the end of a graphics command.
pub open spec fn command_end() -> Seq<u8> {
    seq![27u8, 92]
}

/// The keys of the first command: 32-bit RGBA of `width` by `height`
/// pixels, shown over `columns` by `rows` cells, transmitted and displayed
/// at once, without a reply.
pub open spec fn header_keys(width: nat, height: nat, columns: nat, rows: nat) -> Seq<u8> {
    seq![102u8, 61, 51, 50, 44, 115, 61] + decimal(width) + seq![44u8, 118, 61] + decimal(height) + seq![
        44u8,
        99,
        61,
    ] + decimal(columns) + seq![44u8, 114, 61] + decimal(rows) + seq![44u8, 97, 61, 84, 44, 113, 61, 50]
}

/// The keys of each later command: the image id.
pub open spec fn continuation_keys() -> Seq<u8> {
    seq![105u8, 61, 49]
}

/// Command `i` of `count`: its keys, whether more follow, and its part of
/// the base64 text.
pub open spec fn chunk_command(encoded: Seq<u8>, header: Seq<u8>, i: int, count: int) -> Seq<u8> {
    let keys = if i == 0 {
        header
    } else {
        continuation_keys()
    };
    let more: u8 = if i == count - 1 {
        48
    } else {
        49
    };
    let end = if CHUNK_SIZE * (i + 1) < encoded.len() {
        CHUNK_SIZE * (i + 1)
    } else {
        encoded.len() as int
    };
    command_start() + keys + seq![44u8, 109, 61, more, 59] + encoded.subrange(CHUNK_SIZE * i, end) + command_end()
}

/// The first `k` commands.
pub open spec fn commands_upto(encoded: Seq<u8>, header: Seq<u8>, k: int) -> Seq<u8>
    decreases k,
{
    if k <= 0 {
        Seq::empty()
    } else {
        commands_upto(encoded, header, k - 1) + chunk_command(
            encoded,
            header,
            k - 1,
            chunk_count(encoded.len()) as int,
        )
    }
}

/// Every command that sends `encoded`, in order.
pub open spec fn transmit_stream(encoded: Seq<u8>, width: nat, height: nat, columns: nat, rows: nat) -> Seq<u8> {
    commands_upto(encoded, header_keys(width, height, columns, rows), chunk_count(encoded.len()) as int)
}

fn header(width: u64, height: u64, columns: u64, rows: u64) -> (h: Vec<u8>)
    ensures
        h@ == header_keys(width as nat, height as nat, columns as nat, rows as nat),
{
    let mut h: Vec<u8> = Vec::new();
    push_all(&mut h, &vec![102u8, 61, 51, 50, 44, 115, 61]);
    push_decimal(&mut h, width);
    push_all(&mut h, &vec![44u8, 118, 61]);
    push_decimal(&mut h, height);
    push_all(&mut h, &vec![44u8, 99, 61]);
    push_decimal(&mut h, columns);
    push_all(&mut h, &vec![44u8, 114, 61]);
    push_decimal(&mut h, rows);
    push_all(&mut h, &vec![44u8, 97, 61, 84, 44, 113, 61, 50]);
    assert(h@ =~= header_keys(width as nat, height as nat, columns as nat, rows as nat));
    h
}

/// The commands that send the base64 text `encoded` of a `width` by
/// `height` picture and show it scaled over `columns` by `rows` cells: one
/// command per chunk of at most `CHUNK_SIZE` bytes, the first with the
/// picture's keys, each but the last saying that more follow.
pub fn transmit_commands(encoded: &Vec<u8>, width: u64, height: u64, columns: u64, rows: u64) -> (stream: Vec<u8>)
    ensures
        stream@ == transmit_stream(encoded@, width as nat, height as nat, columns as nat, rows as nat),
{
    let head = header(width, height, columns, rows);
    let len = encoded.len();
    let count = len / CHUNK_SIZE + if len % CHUNK_SIZE == 0 { 0 } else { 1 };
    assert(count == chunk_count(len as nat));
    let mut stream: Vec<u8> = Vec::new();
    let mut i: usize = 0;
    while i < count
        invariant
            len == encoded@.len(),
            count == chunk_count(len as nat),
            head@ == header_keys(width as nat, height as nat, columns as nat, rows as nat),
            i <= count,
            stream@ == commands_upto(encoded@, head@, i as int),
        decreases count - i,
    {
        let ghost before = stream@;
        push_all(&mut stream, &vec![27u8, 95, 71]);
        if i == 0 {
            push_all(&mut stream, &head);
        } else {
            push_all(&mut stream, &vec![105u8, 61, 49]);
        }
        let more: u8 = if i == count - 1 {
            48
        } else {
            49
        };
        push_all(&mut stream, &vec![44u8, 109, 61, more, 59]);
        assert(CHUNK_SIZE * i < len) by (nonlinear_arith)
            requires
                i < count,
                count == (len + 4095) / 4096,
                CHUNK_SIZE == 4096,
        ;
        let start = CHUNK_SIZE * i;
        let end = if len - start > CHUNK_SIZE {
            start + CHUNK_SIZE
        } else {
            len
        };
        let ghost mid = stream@;
        let mut k: usize = start;
        while k < end
            invariant
                start <= k <= end <= len,
                len == encoded@.len(),
                stream@ == mid + encoded@.subrange(start as int, k as int),
            decreases end - k,
        {
            stream.push(encoded[k]);
            assert(encoded@.subrange(start as int, k + 1) =~= encoded@.subrange(start as int, k as int).push(encoded@[k as int]));
            k += 1;
        }
        push_all(&mut stream, &vec![27u8, 92]);
        assert(stream@ =~= before + chunk_command(encoded@, head@, i as int, count as int));
        i += 1;
    }
    stream
}

/// The commands that show a picture through the bitmap protocol: its RGBA
/// bytes in base64, sent in chunks. There is `None` where the base64 text
/// would not fit in memory.
pub fn transmit_picture(rows: &Vec<Vec<Pixel>>, width: u64, height: u64, columns: u64, rows_shown: u64) -> (stream: Option<Vec<u8>>)
    ensures
        stream is Some <==> base64_len(grid_bytes(rows@).len()) <= usize::MAX,
        stream matches Some(s) ==> s@ == transmit_stream(
            base64_of(grid_bytes(rows@)),
            width as nat,
            height as nat,
            columns as nat,
            rows_shown as nat,
        ),
{
    let bytes = rgba_bytes(rows);
    let n = bytes.len();
    let groups = n / 3 + if n % 3 == 0 { 0 } else { 1 };
    assert(groups == (n + 2) / 3);
    if groups > usize::MAX / 4 {
        return None;
    }
    let encoded = encode_base64(&bytes);
    Some(transmit_commands(&encoded, width, height, columns, rows_shown))
}

/// The query that asks the terminal whether it speaks the bitmap protocol:
/// "ESC _ G i=31,a=q; ESC \".
pub open spec fn query_bytes() -> Seq<u8> {
    seq![27u8, 95, 71, 105, 61, 51, 49, 44, 97, 61, 113, 59, 27, 92]
}

/// The part of a reply that names the query's id: "i=31".
pub open spec fn query_id() -> Seq<u8> {
    seq![105u8, 61, 51, 49]
}

pub fn graphics_query() -> (q: Vec<u8>)
    ensures
        q@ == query_bytes(),
{
    let q = vec![27u8, 95, 71, 105, 61, 51, 49, 44, 97, 61, 113, 59, 27, 92];
    assert(q@ =~= query_bytes());
    q
}

/// `pat` occurs in `hay` at `i`.
pub open spec fn occurs_at(hay: Seq<u8>, pat: Seq<u8>, i: int) -> bool {
    0 <= i && i + pat.len() <= hay.len() && hay.subrange(i, i + pat.len()) == pat
}

pub open spec fn contains_bytes(hay: Seq<u8>, pat: Seq<u8>) -> bool {
    exists|i: int| occurs_at(hay, pat, i)
}

pub open spec fn ends_with_bytes(hay: Seq<u8>, pat: Seq<u8>) -> bool {
    hay.len() >= pat.len() && hay.subrange(hay.len() - pat.len(), hay.len() as int) == pat
}

fn occurs(hay: &Vec<u8>, pat: &Vec<u8>, i: usize) -> (found: bool)
    ensures
        found == occurs_at(hay@, pat@, i as int),
{
    if i > hay.len() || pat.len() > hay.len() - i {
        return false;
    }
    let hay_len = hay.len();
    let mut k: usize = 0;
    while k < pat.len()
        invariant
            hay_len == hay@.len(),
            i + pat@.len() <= hay@.len(),
            k <= pat@.len(),
            forall|j: int| 0 <= j < k ==> hay@[i + j] == pat@[j],
        decreases pat@.len() - k,
    {
        if hay[i + k] != pat[k] {
            assert(hay@.subrange(i as int, i + pat@.len())[k as int] != pat@[k as int]);
            return false;
        }
        k += 1;
    }
    assert(hay@.subrange(i as int, i + pat@.len()) =~= pat@);
    true
}

/// Whether `pat` occurs anywhere in `hay`.
pub fn contains(hay: &Vec<u8>, pat: &Vec<u8>) -> (found: bool)
    ensures
        found == contains_bytes(hay@, pat@),
{
    if pat.len() == 0 {
        assert(hay@.subrange(0, 0) =~= pat@);
        assert(occurs_at(hay@, pat@, 0));
        return true;
    }
    let mut i: usize = 0;
    while i < hay.len()
        invariant
            pat@.len() > 0,
            i <= hay@.len(),
            forall|j: int| 0 <= j < i ==> !occurs_at(hay@, pat@, j),
        decreases hay@.len() - i,
    {
        if occurs(hay, pat, i) {
            return true;
        }
        i += 1;
    }
    assert forall|j: int| !occurs_at(hay@, pat@, j) by {
        if 0 <= j && j + pat@.len() <= hay@.len() {
            assert(j < i);
        }
    }
    false
}

/// What the bytes read so far after the query say.
#[derive(Clone, Copy, PartialEq, Eq, Debug, Structural)]
pub enum ProbeReply {
    /// The terminal answered the query: it speaks the protocol.
    Supported,
    /// A reply ended without naming the query: it does not.
    Unsupported,
    /// Nothing decisive yet: read on, until time runs out.
    Pending,
}

/// Reads the bytes the terminal sent back after the query.
pub fn probe_reply(reply: &Vec<u8>) -> (r: ProbeReply)
    ensures
        contains_bytes(reply@, query_id()) ==> r == ProbeReply::Supported,
        !contains_bytes(reply@, query_id()) && ends_with_bytes(reply@, command_end()) ==> r
            == ProbeReply::Unsupported,
        !contains_bytes(reply@, query_id()) && !ends_with_bytes(reply@, command_end()) ==> r
            == ProbeReply::Pending,
{
    let id = vec![105u8, 61, 51, 49];
    assert(id@ =~= query_id());
    if contains(reply, &id) {
        return ProbeReply::Supported;
    }
    let n = reply.len();
    let end = vec![27u8, 92];
    assert(end@ =~= command_end());
    if n >= 2 {
        let found = occurs(reply, &end, n - 2);
        assert(found == ends_with_bytes(reply@, command_end()));
        if found {
            return ProbeReply::Unsupported;
        }
    }
    ProbeReply::Pending
}

} // verus!
