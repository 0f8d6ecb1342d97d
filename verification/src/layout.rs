//! The 128-byte buffer that the radio driver shares with the layers above it.
//!
//! Byte 0 is the PHR: the length of the PSDU including its two-byte checksum, 2 to 127. The PSDU
//! without the checksum follows; hardware appends the checksum when sending and strips it when
//! receiving.
use vstd::prelude::*;

verus! {

/// Minimum valid PHR.
pub const MIN_PHR: usize = 2;
/// Maximum valid PHR.
pub const MAX_PHR: usize = 127;
/// Bytes of the largest PSDU without its checksum.
pub const MAX_PSDU: usize = 125;

/// The PSDU length that a PHR stands for, without the checksum.
pub open spec fn phr_length(phr: u8) -> int {
    if phr >= 2 {
        phr - 2
    } else {
        0
    }
}

/// The PSDU length of a buffer, cut to what the buffer holds.
pub open spec fn psdu_length(buffer: Seq<u8>) -> int {
    if phr_length(buffer[0]) <= buffer.len() - 1 {
        phr_length(buffer[0])
    } else {
        buffer.len() - 1
    }
}

/// The PSDU of a buffer.
pub open spec fn psdu(buffer: Seq<u8>) -> Seq<u8> {
    buffer.subrange(1, 1 + psdu_length(buffer))
}

/// A buffer with `region` in the place of its `length` bytes from byte 1 on.
pub open spec fn with_region(buffer: Seq<u8>, region: Seq<u8>, length: int) -> Seq<u8> {
    buffer.take(1) + region + buffer.skip(1 + length)
}

/// Write the PHR of a PSDU that is `psdu_len` bytes long without its checksum. Only the low byte
/// is kept.
pub fn set_frame_length(buffer: &mut [u8], psdu_len: usize)
    requires
        old(buffer)@.len() >= 1,
        psdu_len + 2 <= usize::MAX,
    ensures
        final(buffer)@ == old(buffer)@.update(0, ((psdu_len + 2) % 0x100) as u8),
{
    buffer[0] = ((psdu_len + 2) % 0x100) as u8;
}

/// The PSDU length that the PHR stands for, without the checksum.
pub fn frame_length(buffer: &[u8]) -> (length: usize)
    requires
        buffer@.len() >= 1,
    ensures
        length == phr_length(buffer@[0]),
{
    let phr: usize = buffer[0] as usize;
    if phr >= 2 {
        phr - 2
    } else {
        0
    }
}

fn region_length(buffer: &[u8]) -> (length: usize)
    requires
        buffer@.len() >= 1,
    ensures
        length == psdu_length(buffer@),
{
    let length: usize = frame_length(buffer);
    let room: usize = buffer.len() - 1;
    if length <= room {
        length
    } else {
        room
    }
}

fn region_mut<'a>(buffer: &'a mut [u8], length: usize) -> (region: &'a mut [u8])
    requires
        1 + length <= old(buffer)@.len(),
    ensures
        region@ == old(buffer)@.subrange(1, 1 + length),
        final(buffer)@ == with_region(old(buffer)@, final(region)@, length as int),
{
    let (_head, rest) = buffer.split_at_mut(1);
    let (region, _tail) = rest.split_at_mut(length);
    region
}

/// The PSDU of a buffer, to be written.
pub fn psdu_region<'a>(buffer: &'a mut [u8; 128]) -> (region: &'a mut [u8])
    ensures
        region@ == psdu(old(buffer)@),
        final(buffer)@ == with_region(
            old(buffer)@,
            final(region)@,
            psdu_length(old(buffer)@),
        ),
{
    let length: usize = region_length(buffer);
    let bytes: &mut [u8] = buffer;
    region_mut(bytes, length)
}

/// The PSDU of a buffer.
pub fn psdu_view<'a>(buffer: &'a [u8; 128]) -> (region: &'a [u8])
    ensures
        region@ == psdu(buffer@),
{
    let length: usize = region_length(buffer);
    vstd::slice::slice_subrange(buffer, 1, 1 + length)
}

/// A view of a buffer as a frame, whose data is the PSDU without its checksum.
#[derive(Debug, Copy, Clone)]
pub struct Mc1322xFrame<'a> {
    /// The buffer.
    pub buffer: &'a [u8],
}

/// Whether a buffer's PHR is valid and the buffer holds what it promises.
pub open spec fn is_frame(buffer: Seq<u8>) -> bool {
    &&& MIN_PHR <= buffer[0] <= MAX_PHR
    &&& buffer.len() >= 1 + phr_length(buffer[0])
}

impl<'a> Mc1322xFrame<'a> {
    /// A buffer as a frame, whatever its PHR.
    pub fn new_unchecked(buffer: &'a [u8]) -> (frame: Mc1322xFrame<'a>)
        ensures
            frame.buffer@ == buffer@,
    {
        Mc1322xFrame { buffer }
    }

    /// A buffer as a frame, if its PHR is valid and the buffer holds what it promises.
    pub fn new_checked(buffer: &'a [u8]) -> (frame: Result<Mc1322xFrame<'a>, ()>)
        requires
            buffer@.len() >= 1,
        ensures
            frame is Ok <==> is_frame(buffer@),
            frame matches Ok(made) ==> made.buffer@ == buffer@,
    {
        let phr: usize = buffer[0] as usize;
        if MIN_PHR <= phr && phr <= MAX_PHR && buffer.len() >= 1 + (phr - 2) {
            Ok(Mc1322xFrame { buffer })
        } else {
            Err(())
        }
    }

    /// The PSDU.
    pub fn data(&self) -> (data: &'a [u8])
        requires
            self.buffer@.len() >= 1,
        ensures
            data@ == psdu(self.buffer@),
    {
        let length: usize = region_length(self.buffer);
        vstd::slice::slice_subrange(self.buffer, 1, 1 + length)
    }

    /// The PSDU of a buffer, to be written.
    pub fn data_mut(buffer: &'a mut [u8]) -> (data: &'a mut [u8])
        requires
            old(buffer)@.len() >= 1,
        ensures
            data@ == psdu(old(buffer)@),
            final(buffer)@ == with_region(
                old(buffer)@,
                final(data)@,
                psdu_length(old(buffer)@),
            ),
    {
        let length: usize = region_length(buffer);
        region_mut(buffer, length)
    }
}

/// Permission to take a received frame out of a buffer.
pub struct Mc1322xRxToken<'a> {
    /// The buffer.
    pub buffer: &'a mut [u8],
}

impl<'a> Mc1322xRxToken<'a> {
    /// Use the permission: the PSDU.
    pub fn consume(self) -> (region: &'a mut [u8])
        requires
            self.buffer@.len() >= 1,
        ensures
            region@ == psdu(old(self.buffer)@),
            final(self.buffer)@ == with_region(
                old(self.buffer)@,
                final(region)@,
                psdu_length(old(self.buffer)@),
            ),
    {
        let length: usize = region_length(self.buffer);
        region_mut(self.buffer, length)
    }
}

/// Permission to put a frame to be sent into a buffer.
pub struct Mc1322xTxToken<'a> {
    /// The buffer.
    pub buffer: &'a mut [u8],
}

/// A PSDU length, cut to the largest.
pub open spec fn capped(length: int) -> int {
    if length <= MAX_PSDU {
        length
    } else {
        MAX_PSDU as int
    }
}

impl<'a> Mc1322xTxToken<'a> {
    /// Use the permission for a PSDU of a length, cut to the largest there is: its PHR is
    /// written, and the region for the PSDU is handed out.
    pub fn consume(self, length: usize) -> (region: &'a mut [u8])
        requires
            self.buffer@.len() >= 1 + capped(length as int),
        ensures
            region@ == old(self.buffer)@.subrange(1, 1 + capped(length as int)),
            final(self.buffer)@ == with_region(
                old(self.buffer)@.update(0, (capped(length as int) + 2) as u8),
                final(region)@,
                capped(length as int),
            ),
    {
        let length: usize = if length <= MAX_PSDU {
            length
        } else {
            MAX_PSDU
        };
        self.buffer[0] = (length + 2) as u8;
        region_mut(self.buffer, length)
    }
}

/// `ieee802154::mac::Frame`: a MAC frame.
#[verifier::external_type_specification]
#[verifier::external_body]
pub struct ExFrame<'p>(ieee802154::mac::Frame<'p>);

/// Why encoding or decoding failed.
#[derive(Debug, Copy, Clone)]
pub enum CodecError {
    /// More bytes are needed.
    Incomplete,
    /// An offset beyond the bytes.
    BadOffset(usize),
    /// What was given cannot be encoded or decoded, for this reason.
    BadInput(&'static str),
}

/// The octets of a MAC frame without security and without a checksum, in so much space; or why
/// it has none.
pub uninterp spec fn mac_octets(frame: ieee802154::mac::Frame<'_>, space: int) -> Result<
    Seq<u8>,
    CodecError,
>;

/// The MAC frame that octets without a checksum stand for, and how many of them it takes; or why
/// there is none.
pub uninterp spec fn mac_frame(octets: Seq<u8>) -> Result<
    (ieee802154::mac::Frame<'static>, usize),
    CodecError,
>;

/// `ieee802154::mac::Frame::try_write` without security and without a checksum: the octets go to
/// the front of `space`, whose rest stays as it is, and depend on the frame alone, as far as
/// they fit. Where it fails, nothing is said of what `space` holds.
#[verifier::external_body]
fn encode(frame: ieee802154::mac::Frame<'_>, space: &mut [u8]) -> (written: Result<
    usize,
    CodecError,
>)
    ensures
        final(space)@.len() == old(space)@.len(),
        match mac_octets(frame, old(space)@.len() as int) {
            Ok(octets) => written == Ok::<usize, CodecError>(octets.len() as usize) && octets.len()
                <= old(space)@.len() && final(space)@ == octets + old(space)@.skip(
                octets.len() as int,
            ),
            Err(error) => written == Err::<usize, CodecError>(error),
        },
{
    let mode = ieee802154::mac::FooterMode::None;
    let mut context = ieee802154::mac::FrameSerDesContext::no_security(mode);
    match byte::TryWrite::try_write(frame, space, &mut context) {
        Ok(written) => Ok(written),
        Err(byte::Error::Incomplete) => Err(CodecError::Incomplete),
        Err(byte::Error::BadOffset(offset)) => Err(CodecError::BadOffset(offset)),
        Err(byte::Error::BadInput { err }) => Err(CodecError::BadInput(err)),
    }
}

/// `ieee802154::mac::Frame::try_read` without a checksum: what it returns depends on the octets
/// alone, and a frame takes all of them, since its payload is whatever its header leaves.
#[verifier::external_body]
fn decode<'a>(octets: &'a [u8]) -> (read: Result<(ieee802154::mac::Frame<'a>, usize), CodecError>)
    ensures
        read == mac_frame(octets@),
        read matches Ok((_, taken)) ==> taken == octets@.len(),
{
    match byte::TryRead::try_read(octets, ieee802154::mac::FooterMode::None) {
        Ok(read) => Ok(read),
        Err(byte::Error::Incomplete) => Err(CodecError::Incomplete),
        Err(byte::Error::BadOffset(offset)) => Err(CodecError::BadOffset(offset)),
        Err(byte::Error::BadInput { err }) => Err(CodecError::BadInput(err)),
    }
}

/// Between `before` and `after`, octets were put into the buffer as its PSDU, and nothing behind
/// them was touched.
pub open spec fn holds_octets(before: Seq<u8>, after: Seq<u8>, octets: Seq<u8>) -> bool {
    &&& octets.len() <= MAX_PSDU
    &&& after[0] == octets.len() + 2
    &&& psdu(after) == octets
    &&& after.skip(1 + octets.len() as int) == before.skip(1 + octets.len() as int)
}

/// Between `before` and `after`, neither the PHR nor anything behind the largest PSDU was
/// touched.
pub open spec fn keeps_phr(before: Seq<u8>, after: Seq<u8>) -> bool {
    &&& after[0] == before[0]
    &&& after.skip(1 + MAX_PSDU) == before.skip(1 + MAX_PSDU)
}

/// Encode a MAC frame into a buffer and write its PHR. Returns how many PSDU bytes were written.
/// Where it fails, the PHR and the bytes behind the largest PSDU stay as they are.
pub fn write_frame(buffer: &mut [u8; 128], frame: ieee802154::mac::Frame<'_>) -> (written: Result<
    usize,
    CodecError,
>)
    ensures
        match mac_octets(frame, MAX_PSDU as int) {
            Ok(octets) => written == Ok::<usize, CodecError>(octets.len() as usize)
                && holds_octets(old(buffer)@, final(buffer)@, octets),
            Err(error) => written == Err::<usize, CodecError>(error) && keeps_phr(
                old(buffer)@,
                final(buffer)@,
            ),
        },
{
    let ghost before = buffer@;
    let written: Result<usize, CodecError> = {
        let bytes: &mut [u8] = buffer;
        encode(frame, region_mut(bytes, MAX_PSDU))
    };
    let ghost encoded = buffer@;
    match written {
        Ok(length) => {
            let ghost octets = mac_octets(frame, MAX_PSDU as int)->Ok_0;
            {
                let bytes: &mut [u8] = buffer;
                set_frame_length(bytes, length);
            }
            proof {
                assert(encoded =~= before.take(1) + octets + before.skip(1 + octets.len() as int));
                assert(psdu(buffer@) =~= octets);
                assert(buffer@.skip(1 + octets.len() as int) =~= before.skip(
                    1 + octets.len() as int,
                ));
            }
            Ok(length)
        },
        Err(error) => {
            assert(buffer@.skip(1 + MAX_PSDU) =~= before.skip(1 + MAX_PSDU));
            Err(error)
        },
    }
}

/// Decode the MAC frame in a buffer. Returns it with how many PSDU bytes it takes, which is all of
/// them.
pub fn read_frame<'a>(buffer: &'a [u8; 128]) -> (read: Result<
    (ieee802154::mac::Frame<'a>, usize),
    CodecError,
>)
    ensures
        read == mac_frame(psdu(buffer@)),
        read matches Ok((_, taken)) ==> taken == psdu_length(buffer@),
{
    decode(psdu_view(buffer))
}

/// The length that is written into a PHR is the length that is read from it, for every PSDU that
/// a PHR can express.
pub proof fn law_length_round_trip(buffer: Seq<u8>, length: int)
    requires
        buffer.len() >= 1,
        0 <= length <= 253,
    ensures
        phr_length(buffer.update(0, ((length + 2) % 0x100) as u8)[0]) == length,
{
}

/// What is written through the writable region of a buffer is what the read-only view shows, and
/// the PHR stays as it is.
pub proof fn law_view_shows_region(buffer: Seq<u8>, region: Seq<u8>)
    requires
        buffer.len() >= 1,
        region.len() == psdu_length(buffer),
    ensures
        psdu(with_region(buffer, region, psdu_length(buffer))) == region,
        with_region(buffer, region, psdu_length(buffer))[0] == buffer[0],
        with_region(buffer, region, psdu_length(buffer)).len() == buffer.len(),
{
    let after = with_region(buffer, region, psdu_length(buffer));
    assert(after[0] == buffer[0]);
    assert(psdu(after) =~= region);
}

/// A buffer that was filled through a token is a valid frame, and its data is what was filled
/// in.
pub proof fn law_token_makes_a_frame(buffer: Seq<u8>, length: int, region: Seq<u8>)
    requires
        0 <= length,
        buffer.len() >= 1 + capped(length),
        region.len() == capped(length),
    ensures
        ({
            let after = with_region(
                buffer.update(0, (capped(length) + 2) as u8),
                region,
                capped(length),
            );
            &&& is_frame(after)
            &&& psdu(after) == region
        }),
{
    let after = with_region(buffer.update(0, (capped(length) + 2) as u8), region, capped(length));
    assert(after[0] == capped(length) + 2);
    assert(psdu(after) =~= region);
}

/// What the codec makes of the octets that it made of a MAC frame, in the space of a PSDU.
pub open spec fn decoded_again(frame: ieee802154::mac::Frame<'static>) -> Result<
    (ieee802154::mac::Frame<'static>, usize),
    CodecError,
> {
    match mac_octets(frame, MAX_PSDU as int) {
        Ok(octets) => mac_frame(octets),
        Err(error) => Err(error),
    }
}

/// A MAC frame that was written into a buffer makes it a valid frame, and reading it back gives
/// exactly what the codec decodes from its own encoding of the frame: that frame itself, wherever
/// the codec loses nothing of it.
pub proof fn law_written_frame_is_read_back(
    before: Seq<u8>,
    after: Seq<u8>,
    frame: ieee802154::mac::Frame<'static>,
)
    requires
        before.len() == 128,
        after.len() == 128,
        mac_octets(frame, MAX_PSDU as int) matches Ok(octets) && holds_octets(
            before,
            after,
            octets,
        ),
    ensures
        is_frame(after),
        mac_frame(psdu(after)) == decoded_again(frame),
        decoded_again(frame) == Ok::<_, CodecError>((frame, psdu_length(after) as usize))
            ==> mac_frame(psdu(after)) == Ok::<_, CodecError>(
            (frame, psdu_length(after) as usize),
        ),
{
}

/// The PSDU of a buffer is what lies behind its PHR: two bytes less than the PHR says, which are
/// those of the checksum, or all that the buffer holds where it ends earlier.
pub proof fn law_psdu_follows_its_phr(buffer: Seq<u8>)
    requires
        buffer.len() >= 1,
    ensures
        buffer[0] < 2 ==> phr_length(buffer[0]) == 0 && psdu(buffer).len() == 0,
        buffer[0] >= 2 ==> phr_length(buffer[0]) + 2 == buffer[0],
        2 <= buffer[0] <= buffer.len() + 1 ==> psdu(buffer).len() + 2 == buffer[0],
        buffer[0] > buffer.len() + 1 ==> psdu(buffer).len() + 1 == buffer.len(),
        psdu_length(buffer) == psdu(buffer).len(),
        forall|i: int| 0 <= i < psdu(buffer).len() ==> #[trigger] psdu(buffer)[i] == buffer[1 + i],
{
}

/// Writing through a region changes the bytes of the region and no others.
pub proof fn law_region_is_replaced_in_place(
    buffer: Seq<u8>,
    region: Seq<u8>,
    length: int,
    i: int,
)
    requires
        0 <= length < buffer.len(),
        region.len() == length,
        0 <= i < buffer.len(),
    ensures
        with_region(buffer, region, length).len() == buffer.len(),
        1 <= i <= length ==> with_region(buffer, region, length)[i] == region[i - 1],
        i == 0 || i > length ==> with_region(buffer, region, length)[i] == buffer[i],
{
}

/// A buffer is a frame exactly if its PHR lies between 2 and 127 and the buffer is long enough
/// for the PHR and the PSDU; a frame shows its whole PSDU.
pub proof fn law_frames_are_whole(buffer: Seq<u8>)
    requires
        buffer.len() >= 1,
    ensures
        is_frame(buffer) <==> 2 <= buffer[0] <= 127 && buffer[0] <= buffer.len() + 1,
        is_frame(buffer) ==> psdu(buffer).len() + 2 == buffer[0],
{
}

/// A length of up to 125 bytes is handed out as it is, and a greater one as 125.
pub proof fn law_lengths_are_cut_to_the_largest(length: int)
    requires
        0 <= length,
    ensures
        length <= 125 ==> capped(length) == length,
        length > 125 ==> capped(length) == 125,
{
}

/// Octets that were put into a buffer stand behind a PHR that counts them and the checksum, and
/// every byte behind them is the byte that was there before; where none were put, neither the PHR
/// nor a byte behind the largest PSDU has changed.
pub proof fn law_octets_stand_behind_the_phr(
    before: Seq<u8>,
    after: Seq<u8>,
    octets: Seq<u8>,
    i: int,
)
    requires
        before.len() == 128,
        after.len() == 128,
        0 <= i < 128,
    ensures
        holds_octets(before, after, octets) ==> {
            &&& octets.len() <= 125
            &&& after[0] == octets.len() + 2
            &&& 1 <= i <= octets.len() ==> after[i] == octets[i - 1]
            &&& i > octets.len() ==> after[i] == before[i]
        },
        keeps_phr(before, after) && (i == 0 || i > 125) ==> after[i] == before[i],
{
    if holds_octets(before, after, octets) {
        if 1 <= i <= octets.len() {
            assert(psdu(after)[i - 1] == octets[i - 1]);
        } else if i > octets.len() {
            let behind = 1 + octets.len() as int;
            assert(after.skip(behind)[i - behind] == before.skip(behind)[i - behind]);
        }
    }
    if keeps_phr(before, after) && i > 125 {
        assert(after.skip(126)[i - 126] == before.skip(126)[i - 126]);
    }
}

} // verus!
