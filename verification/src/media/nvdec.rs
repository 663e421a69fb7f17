//! Video decoders: what a device says it can decode, and how a decoder is made.

use vstd::prelude::*;

use crate::error::{message, Result, SwmError};
use crate::tensor::value::Location;
use crate::text::{decimal, decimal_text, signed_decimal, signed_text, with_number, with_numbers};

verus! {

/// How a video is encoded.
#[derive(Debug, Clone, Copy, PartialEq, Eq, Structural)]
pub enum NvDecCodec {
    H264,
    Hevc,
    Av1,
    Vp9,
}

impl NvDecCodec {
    /// The number that the decoder library gives a codec.
    pub open spec fn number(self) -> u32 {
        match self {
            NvDecCodec::H264 => 4,
            NvDecCodec::Hevc => 8,
            NvDecCodec::Vp9 => 10,
            NvDecCodec::Av1 => 11,
        }
    }

    /// The number that callers give a codec.
    pub open spec fn id(self) -> u32 {
        match self {
            NvDecCodec::H264 => 0,
            NvDecCodec::Hevc => 1,
            NvDecCodec::Av1 => 2,
            NvDecCodec::Vp9 => 3,
        }
    }

    /// What a codec is called.
    pub open spec fn called(self) -> Seq<char> {
        match self {
            NvDecCodec::H264 => "H.264"@,
            NvDecCodec::Hevc => "HEVC"@,
            NvDecCodec::Av1 => "AV1"@,
            NvDecCodec::Vp9 => "VP9"@,
        }
    }

    pub fn raw(self) -> (r: u32)
        ensures
            r == self.number(),
    {
        match self {
            NvDecCodec::H264 => 4,
            NvDecCodec::Hevc => 8,
            NvDecCodec::Vp9 => 10,
            NvDecCodec::Av1 => 11,
        }
    }

    pub fn name(self) -> (r: &'static str)
        ensures
            r@ == self.called(),
    {
        match self {
            NvDecCodec::H264 => "H.264",
            NvDecCodec::Hevc => "HEVC",
            NvDecCodec::Av1 => "AV1",
            NvDecCodec::Vp9 => "VP9",
        }
    }

    /// The codec that a number stands for.
    pub fn try_from(value: u32) -> (r: Result<Self>)
        ensures
            value < 4 ==> r is Ok && r->Ok_0.id() == value,
            value >= 4 ==> r is Err && r->Err_0.says(
                "unknown NVDECODE codec "@ + decimal(value as nat)
                    + "; expected 0=H264, 1=HEVC, 2=AV1, or 3=VP9"@,
            ),
    {
        match value {
            0 => Ok(NvDecCodec::H264),
            1 => Ok(NvDecCodec::Hevc),
            2 => Ok(NvDecCodec::Av1),
            3 => Ok(NvDecCodec::Vp9),
            _ => Err(
                SwmError::Message(
                    with_number(
                        "unknown NVDECODE codec ",
                        value as usize,
                        "; expected 0=H264, 1=HEVC, 2=AV1, or 3=VP9",
                    ),
                ),
            ),
        }
    }
}

/// How colours are sampled.
#[derive(Debug, Clone, Copy, PartialEq, Eq, Structural)]
pub enum NvDecChromaFormat {
    Monochrome,
    Yuv420,
    Yuv422,
    Yuv444,
}

impl NvDecChromaFormat {
    /// The number of a format, with the decoder library and with callers.
    pub open spec fn number(self) -> u32 {
        match self {
            NvDecChromaFormat::Monochrome => 0,
            NvDecChromaFormat::Yuv420 => 1,
            NvDecChromaFormat::Yuv422 => 2,
            NvDecChromaFormat::Yuv444 => 3,
        }
    }

    pub fn raw(self) -> (r: u32)
        ensures
            r == self.number(),
    {
        match self {
            NvDecChromaFormat::Monochrome => 0,
            NvDecChromaFormat::Yuv420 => 1,
            NvDecChromaFormat::Yuv422 => 2,
            NvDecChromaFormat::Yuv444 => 3,
        }
    }

    /// The format that a number stands for.
    pub fn try_from(value: u32) -> (r: Result<Self>)
        ensures
            value < 4 ==> r is Ok && r->Ok_0.number() == value,
            value >= 4 ==> r is Err && r->Err_0.says(
                "unknown NVDECODE chroma format "@ + decimal(value as nat)
                    + "; expected 0=monochrome, 1=YUV420, 2=YUV422, or 3=YUV444"@,
            ),
    {
        match value {
            0 => Ok(NvDecChromaFormat::Monochrome),
            1 => Ok(NvDecChromaFormat::Yuv420),
            2 => Ok(NvDecChromaFormat::Yuv422),
            3 => Ok(NvDecChromaFormat::Yuv444),
            _ => Err(
                SwmError::Message(
                    with_number(
                        "unknown NVDECODE chroma format ",
                        value as usize,
                        "; expected 0=monochrome, 1=YUV420, 2=YUV422, or 3=YUV444",
                    ),
                ),
            ),
        }
    }
}

/// How a decoded frame lies in memory.
#[derive(Debug, Clone, Copy, PartialEq, Eq, Structural)]
pub enum NvDecSurfaceFormat {
    Nv12,
    P016,
    Yuv444,
    Yuv44416Bit,
}

impl NvDecSurfaceFormat {
    /// The number of a format.
    pub open spec fn number(self) -> u32 {
        match self {
            NvDecSurfaceFormat::Nv12 => 0,
            NvDecSurfaceFormat::P016 => 1,
            NvDecSurfaceFormat::Yuv444 => 2,
            NvDecSurfaceFormat::Yuv44416Bit => 3,
        }
    }

    pub fn raw(self) -> (r: u32)
        ensures
            r == self.number(),
    {
        match self {
            NvDecSurfaceFormat::Nv12 => 0,
            NvDecSurfaceFormat::P016 => 1,
            NvDecSurfaceFormat::Yuv444 => 2,
            NvDecSurfaceFormat::Yuv44416Bit => 3,
        }
    }

    /// The bit of a mask that stands for a format.
    pub fn mask_bit(self) -> (r: u32)
        ensures
            r == 1u32 << self.number(),
    {
        1u32 << self.raw()
    }
}

/// What a device can decode.
#[derive(Debug, Clone, Copy, PartialEq, Eq, Structural)]
pub struct NvDecCaps {
    pub codec: NvDecCodec,
    pub chroma_format: NvDecChromaFormat,
    pub bit_depth_minus_8: u32,
    pub supported: bool,
    pub nvdec_count: usize,
    pub output_format_mask: u32,
    pub min_width: usize,
    pub min_height: usize,
    pub max_width: usize,
    pub max_height: usize,
    pub max_macroblock_count: usize,
    pub histogram_supported: bool,
    pub histogram_counter_bit_depth: usize,
    pub max_histogram_bins: usize,
}

impl NvDecCaps {
    /// Whether the bit of a format is set.
    pub open spec fn offers(self, format: NvDecSurfaceFormat) -> bool {
        self.output_format_mask & (1u32 << format.number()) != 0
    }

    pub fn supports(self, format: NvDecSurfaceFormat) -> (r: bool)
        ensures
            r == self.offers(format),
    {
        self.output_format_mask & format.mask_bit() != 0
    }
}

/// A format is offered exactly where the binary digit at its number is one.
pub proof fn offers_read_one_digit(caps: NvDecCaps, format: NvDecSurfaceFormat)
    ensures
        format is Nv12 ==> (caps.offers(format) <==> caps.output_format_mask % 2 == 1),
        format is P016 ==> (caps.offers(format) <==> (caps.output_format_mask / 2) % 2 == 1),
        format is Yuv444 ==> (caps.offers(format) <==> (caps.output_format_mask / 4) % 2 == 1),
        format is Yuv44416Bit ==> (caps.offers(format) <==> (caps.output_format_mask / 8) % 2 == 1),
{
    let m = caps.output_format_mask;
    assert(m & (1u32 << 0u32) != 0 <==> m % 2 == 1) by (bit_vector);
    assert(m & (1u32 << 1u32) != 0 <==> (m / 2) % 2 == 1) by (bit_vector);
    assert(m & (1u32 << 2u32) != 0 <==> (m / 4) % 2 == 1) by (bit_vector);
    assert(m & (1u32 << 3u32) != 0 <==> (m / 8) % 2 == 1) by (bit_vector);
}

/// What the decoder library is asked.
#[derive(Debug, Clone, Copy, PartialEq, Eq, Structural)]
pub struct CapsQuery {
    pub codec_type: u32,
    pub chroma_format: u32,
    pub bit_depth_minus_8: u32,
}

/// What the decoder library answers.
#[derive(Debug, Clone, Copy, PartialEq, Eq, Structural)]
pub struct CapsAnswer {
    pub is_supported: u8,
    pub num_nvdecs: u8,
    pub output_format_mask: u16,
    pub max_width: u32,
    pub max_height: u32,
    pub max_mb_count: u32,
    pub min_width: u16,
    pub min_height: u16,
    pub is_histogram_supported: u8,
    pub counter_bit_depth: u8,
    pub max_histogram_bins: u16,
}

/// What to ask the decoder library about a device.
pub fn caps_query(
    location: Location,
    codec: NvDecCodec,
    chroma_format: NvDecChromaFormat,
    bit_depth_minus_8: u32,
) -> (r: Result<CapsQuery>)
    ensures
        r is Ok <==> location is Cuda,
        r matches Err(e) ==> e.says("NVDECODE capability query requires a CUDA Candle device"@),
        r matches Ok(q) ==> q == (CapsQuery {
            codec_type: codec.number(),
            chroma_format: chroma_format.number(),
            bit_depth_minus_8,
        }),
{
    match location {
        Location::Cuda(_) => Ok(
            CapsQuery {
                codec_type: codec.raw(),
                chroma_format: chroma_format.raw(),
                bit_depth_minus_8,
            },
        ),
        _ => Err(message("NVDECODE capability query requires a CUDA Candle device")),
    }
}

/// What is said of a call that the driver failed.
pub open spec fn driver_complaint(status: i32, context: Seq<char>) -> Option<Seq<char>> {
    if status == 0 {
        None
    } else {
        Some(context + " failed with CUDA driver status "@ + signed_decimal(status as int))
    }
}

/// Whether a call to the driver succeeded.
pub fn check_cuvid(status: i32, context: &str) -> (r: Result<()>)
    ensures
        r is Ok <==> driver_complaint(status, context@) is None,
        r matches Err(e) ==> e.says(driver_complaint(status, context@)->0),
{
    if status == 0 {
        return Ok(());
    }
    let mut text = String::from_str(context);
    text.append(" failed with CUDA driver status ");
    text.append(signed_text(status as i64).as_str());
    proof {
        assert(text@ =~= driver_complaint(status, context@)->0);
    }
    Err(SwmError::Message(text))
}

/// What a device can decode, from the status and the answer of the decoder
/// library.
pub fn caps_from_answer(
    codec: NvDecCodec,
    chroma_format: NvDecChromaFormat,
    bit_depth_minus_8: u32,
    status: i32,
    answer: CapsAnswer,
) -> (r: Result<NvDecCaps>)
    ensures
        driver_complaint(status, "cuvidGetDecoderCaps"@) matches Some(text) ==> r is Err
            && r->Err_0.says(text),
        status == 0 ==> r is Ok && r->Ok_0 == (NvDecCaps {
            codec,
            chroma_format,
            bit_depth_minus_8,
            supported: answer.is_supported != 0,
            nvdec_count: answer.num_nvdecs as usize,
            output_format_mask: answer.output_format_mask as u32,
            min_width: answer.min_width as usize,
            min_height: answer.min_height as usize,
            max_width: answer.max_width as usize,
            max_height: answer.max_height as usize,
            max_macroblock_count: answer.max_mb_count as usize,
            histogram_supported: answer.is_histogram_supported != 0,
            histogram_counter_bit_depth: answer.counter_bit_depth as usize,
            max_histogram_bins: answer.max_histogram_bins as usize,
        }),
{
    check_cuvid(status, "cuvidGetDecoderCaps")?;
    Ok(
        NvDecCaps {
            codec,
            chroma_format,
            bit_depth_minus_8,
            supported: answer.is_supported != 0,
            nvdec_count: answer.num_nvdecs as usize,
            output_format_mask: answer.output_format_mask as u32,
            min_width: answer.min_width as usize,
            min_height: answer.min_height as usize,
            max_width: answer.max_width as usize,
            max_height: answer.max_height as usize,
            max_macroblock_count: answer.max_mb_count as usize,
            histogram_supported: answer.is_histogram_supported != 0,
            histogram_counter_bit_depth: answer.counter_bit_depth as usize,
            max_histogram_bins: answer.max_histogram_bins as usize,
        },
    )
}

/// What a decoder should be.
#[derive(Debug, Clone, Copy, PartialEq, Eq, Structural)]
pub struct NvDecDecoderConfig {
    pub codec: NvDecCodec,
    pub width: usize,
    pub height: usize,
    pub decode_surfaces: usize,
    pub output_surfaces: usize,
}

/// The largest coordinate of a rectangle.
pub const LARGEST_COORDINATE: usize = 32767;

impl NvDecDecoderConfig {
    pub fn new(codec: NvDecCodec, width: usize, height: usize) -> (r: Self)
        ensures
            r == (Self { codec, width, height, decode_surfaces: 20, output_surfaces: 2 }),
    {
        Self { codec, width, height, decode_surfaces: 20, output_surfaces: 2 }
    }

    /// The first thing wrong with a decoder.
    pub open spec fn complaint(self) -> Option<Seq<char>> {
        let size = decimal(self.width as nat) + "x"@ + decimal(self.height as nat);
        if self.width == 0 || self.height == 0 {
            Some("NVDECODE decoder dimensions must be greater than zero"@)
        } else if self.width % 2 != 0 || self.height % 2 != 0 {
            Some("NVDECODE NV12 decoder dimensions must be even, got "@ + size)
        } else if self.width > LARGEST_COORDINATE || self.height > LARGEST_COORDINATE {
            Some("NVDECODE decoder dimensions exceed SDK rect range: "@ + size)
        } else if self.decode_surfaces == 0 || self.output_surfaces == 0 {
            Some("NVDECODE decoder surface counts must be greater than zero"@)
        } else {
            None
        }
    }

    /// Whether a decoder can be asked for.
    pub fn validate(self) -> (r: Result<()>)
        ensures
            r is Ok <==> self.complaint() is None,
            r matches Err(e) ==> e.says(self.complaint()->0),
    {
        proof {
            reveal_strlit("");
        }
        if self.width == 0 || self.height == 0 {
            return Err(message("NVDECODE decoder dimensions must be greater than zero"));
        }
        if self.width % 2 != 0 || self.height % 2 != 0 {
            let text = with_numbers(
                "NVDECODE NV12 decoder dimensions must be even, got ",
                self.width,
                "x",
                self.height,
                "",
            );
            proof {
                assert(text@ =~= self.complaint()->0);
            }
            return Err(SwmError::Message(text));
        }
        if self.width > LARGEST_COORDINATE || self.height > LARGEST_COORDINATE {
            let text = with_numbers(
                "NVDECODE decoder dimensions exceed SDK rect range: ",
                self.width,
                "x",
                self.height,
                "",
            );
            proof {
                assert(text@ =~= self.complaint()->0);
            }
            return Err(SwmError::Message(text));
        }
        if self.decode_surfaces == 0 || self.output_surfaces == 0 {
            return Err(message("NVDECODE decoder surface counts must be greater than zero"));
        }
        Ok(())
    }
}

/// A rectangle from the upper left corner on.
#[derive(Debug, Clone, Copy, PartialEq, Eq, Structural)]
pub struct CornerRect {
    pub right: i16,
    pub bottom: i16,
}

/// What the decoder library is given to make a decoder.
#[derive(Debug, Clone, Copy, PartialEq, Eq, Structural)]
pub struct DecoderPlan {
    pub width: u64,
    pub height: u64,
    pub decode_surfaces: u64,
    pub codec_type: u32,
    pub chroma_format: u32,
    pub creation_flags: u64,
    pub bit_depth_minus_8: u64,
    pub intra_decode_only: u64,
    pub max_width: u64,
    pub max_height: u64,
    pub display_area: CornerRect,
    pub output_format: u32,
    pub deinterlace_mode: u32,
    pub target_width: u64,
    pub target_height: u64,
    pub output_surfaces: u64,
    pub target_rect: CornerRect,
    pub enable_histogram: u64,
}

/// The frame is decoded and handed out in its own size, in two planes, woven
/// where it is interlaced.
pub open spec fn plan_for(config: NvDecDecoderConfig) -> DecoderPlan {
    let rect = CornerRect { right: config.width as i16, bottom: config.height as i16 };
    DecoderPlan {
        width: config.width as u64,
        height: config.height as u64,
        decode_surfaces: config.decode_surfaces as u64,
        codec_type: config.codec.number(),
        chroma_format: 1,
        creation_flags: 4,
        bit_depth_minus_8: 0,
        intra_decode_only: 0,
        max_width: config.width as u64,
        max_height: config.height as u64,
        display_area: rect,
        output_format: 0,
        deinterlace_mode: 0,
        target_width: config.width as u64,
        target_height: config.height as u64,
        output_surfaces: config.output_surfaces as u64,
        target_rect: rect,
        enable_histogram: 0,
    }
}

/// The first thing that keeps a device from making a decoder.
pub open spec fn decoder_complaint(config: NvDecDecoderConfig, caps: NvDecCaps) -> Option<
    Seq<char>,
> {
    if config.complaint() is Some {
        config.complaint()
    } else if !caps.supported {
        Some(
            "NVDECODE "@ + config.codec.called()
                + " 8-bit 4:2:0 is not supported on the selected CUDA device"@,
        )
    } else if !caps.offers(NvDecSurfaceFormat::Nv12) {
        Some(
            "NVDECODE "@ + config.codec.called()
                + " 8-bit 4:2:0 does not report NV12 output support"@,
        )
    } else if config.width < caps.min_width || config.height < caps.min_height || config.width
        > caps.max_width || config.height > caps.max_height {
        Some(
            "NVDECODE "@ + config.codec.called() + " dimensions "@ + decimal(config.width as nat)
                + "x"@ + decimal(config.height as nat) + " outside supported range "@ + decimal(
                caps.min_width as nat,
            ) + "x"@ + decimal(caps.min_height as nat) + ".."@ + decimal(caps.max_width as nat)
                + "x"@ + decimal(caps.max_height as nat),
        )
    } else {
        None
    }
}

fn range_text(config: &NvDecDecoderConfig, caps: &NvDecCaps) -> (r: String)
    ensures
        r@ == "NVDECODE "@ + config.codec.called() + " dimensions "@ + decimal(config.width as nat)
            + "x"@ + decimal(config.height as nat) + " outside supported range "@ + decimal(
            caps.min_width as nat,
        ) + "x"@ + decimal(caps.min_height as nat) + ".."@ + decimal(caps.max_width as nat) + "x"@
            + decimal(caps.max_height as nat),
{
    let mut text = String::from_str("NVDECODE ");
    text.append(config.codec.name());
    text.append(" dimensions ");
    text.append(decimal_text(config.width as u64).as_str());
    text.append("x");
    text.append(decimal_text(config.height as u64).as_str());
    text.append(" outside supported range ");
    text.append(decimal_text(caps.min_width as u64).as_str());
    text.append("x");
    text.append(decimal_text(caps.min_height as u64).as_str());
    text.append("..");
    text.append(decimal_text(caps.max_width as u64).as_str());
    text.append("x");
    text.append(decimal_text(caps.max_height as u64).as_str());
    text
}

/// What the decoder library is given to make a decoder for 8-bit frames in two
/// planes, on a device that can do so much.
pub fn plan_nv12(config: NvDecDecoderConfig, caps: NvDecCaps) -> (r: Result<DecoderPlan>)
    ensures
        r is Ok <==> decoder_complaint(config, caps) is None,
        r matches Err(e) ==> e.says(decoder_complaint(config, caps)->0),
        r matches Ok(p) ==> p == plan_for(config),
{
    config.validate()?;
    if !caps.supported {
        let mut text = String::from_str("NVDECODE ");
        text.append(config.codec.name());
        text.append(" 8-bit 4:2:0 is not supported on the selected CUDA device");
        return Err(SwmError::Message(text));
    }
    if !caps.supports(NvDecSurfaceFormat::Nv12) {
        let mut text = String::from_str("NVDECODE ");
        text.append(config.codec.name());
        text.append(" 8-bit 4:2:0 does not report NV12 output support");
        return Err(SwmError::Message(text));
    }
    if config.width < caps.min_width || config.height < caps.min_height || config.width
        > caps.max_width || config.height > caps.max_height {
        return Err(SwmError::Message(range_text(&config, &caps)));
    }
    let rect = CornerRect { right: config.width as i16, bottom: config.height as i16 };
    Ok(
        DecoderPlan {
            width: config.width as u64,
            height: config.height as u64,
            decode_surfaces: config.decode_surfaces as u64,
            codec_type: config.codec.raw(),
            chroma_format: NvDecChromaFormat::Yuv420.raw(),
            creation_flags: 4,
            bit_depth_minus_8: 0,
            intra_decode_only: 0,
            max_width: config.width as u64,
            max_height: config.height as u64,
            display_area: rect,
            output_format: NvDecSurfaceFormat::Nv12.raw(),
            deinterlace_mode: 0,
            target_width: config.width as u64,
            target_height: config.height as u64,
            output_surfaces: config.output_surfaces as u64,
            target_rect: rect,
            enable_histogram: 0,
        },
    )
}

/// The rectangles of a plan cover the frame: no coordinate is cut off.
pub proof fn plans_cover_the_frame(config: NvDecDecoderConfig)
    requires
        config.complaint() is None,
    ensures
        plan_for(config).display_area.right == config.width,
        plan_for(config).display_area.bottom == config.height,
        plan_for(config).target_rect == plan_for(config).display_area,
        plan_for(config).max_width == plan_for(config).target_width == plan_for(config).width
            == config.width,
        plan_for(config).max_height == plan_for(config).target_height == plan_for(config).height
            == config.height,
{
}

/// What is held of the decoder library.
#[derive(Debug, Clone, Copy, PartialEq, Eq, Structural)]
pub enum DecoderHold {
    Nothing,
    Lock,
    LockAndDecoder,
}

/// What to do next while a decoder is made or given back.
#[derive(Debug, Clone, Copy, PartialEq, Eq, Structural)]
pub enum DecoderCall {
    CreateLock,
    CreateDecoder,
    DestroyDecoder,
    DestroyLock,
    Done,
}

/// What is held after a call with a status. Giving back always succeeds.
pub open spec fn hold_after(hold: DecoderHold, call: DecoderCall, status: i32) -> DecoderHold {
    match (hold, call) {
        (DecoderHold::Nothing, DecoderCall::CreateLock) => if status == 0 {
            DecoderHold::Lock
        } else {
            DecoderHold::Nothing
        },
        (DecoderHold::Lock, DecoderCall::CreateDecoder) => if status == 0 {
            DecoderHold::LockAndDecoder
        } else {
            DecoderHold::Lock
        },
        (DecoderHold::LockAndDecoder, DecoderCall::DestroyDecoder) => DecoderHold::Lock,
        (DecoderHold::Lock, DecoderCall::DestroyLock) => DecoderHold::Nothing,
        _ => hold,
    }
}

/// The call that makes the next thing, or gives back the last.
pub open spec fn next_call(hold: DecoderHold, opening: bool) -> DecoderCall {
    match (hold, opening) {
        (DecoderHold::Nothing, true) => DecoderCall::CreateLock,
        (DecoderHold::Lock, true) => DecoderCall::CreateDecoder,
        (DecoderHold::LockAndDecoder, true) => DecoderCall::Done,
        (DecoderHold::LockAndDecoder, false) => DecoderCall::DestroyDecoder,
        (DecoderHold::Lock, false) => DecoderCall::DestroyLock,
        (DecoderHold::Nothing, false) => DecoderCall::Done,
    }
}

/// The name of a call in messages.
pub open spec fn call_name(call: DecoderCall) -> Seq<char> {
    match call {
        DecoderCall::CreateLock => "cuvidCtxLockCreate"@,
        DecoderCall::CreateDecoder => "cuvidCreateDecoder"@,
        DecoderCall::DestroyDecoder => "cuvidDestroyDecoder"@,
        DecoderCall::DestroyLock => "cuvidCtxLockDestroy"@,
        DecoderCall::Done => ""@,
    }
}

/// A decoder that is being made or given back.
#[derive(Debug, Clone, Copy, PartialEq, Eq, Structural)]
pub struct DecoderProgress {
    pub hold: DecoderHold,
    pub opening: bool,
}

impl DecoderProgress {
    /// Nothing is held, and a decoder is wanted.
    pub fn start() -> (r: Self)
        ensures
            r == (DecoderProgress { hold: DecoderHold::Nothing, opening: true }),
    {
        DecoderProgress { hold: DecoderHold::Nothing, opening: true }
    }

    /// What is held is no longer wanted.
    pub fn close(self) -> (r: Self)
        ensures
            r == (DecoderProgress { hold: self.hold, opening: false }),
    {
        DecoderProgress { hold: self.hold, opening: false }
    }

    /// What to do next.
    pub fn call(self) -> (r: DecoderCall)
        ensures
            r == next_call(self.hold, self.opening),
    {
        match (self.hold, self.opening) {
            (DecoderHold::Nothing, true) => DecoderCall::CreateLock,
            (DecoderHold::Lock, true) => DecoderCall::CreateDecoder,
            (DecoderHold::LockAndDecoder, true) => DecoderCall::Done,
            (DecoderHold::LockAndDecoder, false) => DecoderCall::DestroyDecoder,
            (DecoderHold::Lock, false) => DecoderCall::DestroyLock,
            (DecoderHold::Nothing, false) => DecoderCall::Done,
        }
    }

    /// Where things stand after the next call came back with a status.
    pub open spec fn stepped(self, status: i32) -> DecoderProgress {
        DecoderProgress {
            hold: hold_after(self.hold, next_call(self.hold, self.opening), status),
            opening: self.opening && (status == 0 || next_call(self.hold, true) is Done),
        }
    }

    /// Takes the status of the next call. A call that fails while a decoder is
    /// made turns back and says so; the status of a call that gives something
    /// back is not looked at.
    pub fn step(self, status: i32) -> (r: (Self, Result<()>))
        ensures
            r.0 == self.stepped(status),
            r.1 is Ok <==> !self.opening || status == 0 || next_call(self.hold, true) is Done,
            r.1 matches Err(e) ==> e.says(
                driver_complaint(status, call_name(next_call(self.hold, true)))->0,
            ),
    {
        if !self.opening {
            let hold = match self.hold {
                DecoderHold::LockAndDecoder => DecoderHold::Lock,
                _ => DecoderHold::Nothing,
            };
            return (DecoderProgress { hold, opening: false }, Ok(()));
        }
        match self.hold {
            DecoderHold::Nothing => match check_cuvid(status, "cuvidCtxLockCreate") {
                Ok(_) => (DecoderProgress { hold: DecoderHold::Lock, opening: true }, Ok(())),
                Err(e) => (DecoderProgress { hold: DecoderHold::Nothing, opening: false }, Err(e)),
            },
            DecoderHold::Lock => match check_cuvid(status, "cuvidCreateDecoder") {
                Ok(_) => (
                    DecoderProgress { hold: DecoderHold::LockAndDecoder, opening: true },
                    Ok(()),
                ),
                Err(e) => (DecoderProgress { hold: DecoderHold::Lock, opening: false }, Err(e)),
            },
            DecoderHold::LockAndDecoder => (self, Ok(())),
        }
    }
}

/// Making a decoder ends in two calls with both things held, or in three with
/// nothing held.
pub proof fn opening_leaves_all_or_nothing(first: i32, second: i32, third: i32)
    ensures
        ({
            let start = DecoderProgress { hold: DecoderHold::Nothing, opening: true };
            let end = start.stepped(first).stepped(second).stepped(third);
            &&& next_call(end.hold, end.opening) is Done
            &&& first == 0 && second == 0 ==> end.hold is LockAndDecoder && end.opening
            &&& first != 0 || second != 0 ==> end.hold is Nothing && !end.opening
        }),
{
}

/// Whatever is held is given back within two calls, the decoder before the lock
/// it was made with.
pub proof fn closing_gives_everything_back(hold: DecoderHold, first: i32, second: i32)
    ensures
        ({
            let closing = DecoderProgress { hold, opening: false };
            &&& closing.stepped(first).stepped(second).hold is Nothing
            &&& hold is LockAndDecoder ==> next_call(hold, false) is DestroyDecoder && next_call(
                closing.stepped(first).hold,
                false,
            ) is DestroyLock
        }),
{
}

} // verus!
