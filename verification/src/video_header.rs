//! The YUV4MPEG-2 stream header: its text form, its fields and the size of
//! the frames that follow it.

use crate::scan::{
    decimal_u32, find, find_byte, lemma_find_byte, parse_u32, text_view, utf8_text, LF, SPACE,
};
use vstd::prelude::*;
use vstd::slice::{slice_subrange, slice_to_vec};
use vstd::string::StringExecFns;
use vstd::utf8::{decode_utf8, valid_utf8};

verus! {

/// Chroma layouts that a stream header may name.
#[derive(PartialEq, Eq, Debug, Copy, Clone, Structural)]
pub enum ColorSpaceType {
    C410,
    C411,
    C420p10,
    C422,
    C440,
    C444,
}

/// Why a header line was turned down.
#[derive(PartialEq, Eq, Debug, Copy, Clone, Structural)]
pub enum HeaderError {
    /// No line feed ends the header.
    MissingTerminator,
    /// The line does not start with the stream's magic word.
    WrongMagic,
    /// Two separators follow each other, or one ends the line.
    EmptyParameter,
    /// A parameter's value is not UTF-8 text.
    InvalidText,
    /// The color space is none of the known ones.
    UnsupportedColorSpace,
    /// The parameter's tag is not one of `W H F I A C X`.
    UnknownParameter,
    /// The last width given is not a 32-bit decimal number.
    InvalidWidth,
    /// The last height given is not a 32-bit decimal number.
    InvalidHeight,
    /// No width is given.
    MissingWidth,
    /// No height is given.
    MissingHeight,
    /// No frame rate is given.
    MissingRate,
}

/// A parsed stream header. `as_bytes` keeps the line as it was read, line
/// feed included, so that it can be written out again unchanged.
#[derive(Clone)]
pub struct VideoHeader {
    pub width: u32,
    pub height: u32,
    pub rate: String,
    pub interlace: Option<String>,
    pub aspect_ratio: Option<String>,
    pub color_space_type: Option<ColorSpaceType>,
    pub as_bytes: Vec<u8>,
}

/// The mathematical content of a `VideoHeader`.
pub struct HeaderView {
    pub width: u32,
    pub height: u32,
    pub rate: Seq<char>,
    pub interlace: Option<Seq<char>>,
    pub aspect_ratio: Option<Seq<char>>,
    pub color_space_type: Option<ColorSpaceType>,
    pub as_bytes: Seq<u8>,
}

/// What the parameters read so far have set.
pub struct HeaderFields {
    pub width: Result<u32, HeaderError>,
    pub height: Result<u32, HeaderError>,
    pub rate: Option<Seq<char>>,
    pub interlace: Option<Seq<char>>,
    pub aspect_ratio: Option<Seq<char>>,
    pub color_space_type: Option<ColorSpaceType>,
}

impl View for VideoHeader {
    type V = HeaderView;

    open spec fn view(&self) -> HeaderView {
        HeaderView {
            width: self.width,
            height: self.height,
            rate: self.rate@,
            interlace: text_view(self.interlace),
            aspect_ratio: text_view(self.aspect_ratio),
            color_space_type: self.color_space_type,
            as_bytes: self.as_bytes@,
        }
    }
}

/// The magic word `YUV4MPEG2`.
pub open spec fn magic() -> Seq<u8> {
    seq![0x59u8, 0x55u8, 0x56u8, 0x34u8, 0x4Du8, 0x50u8, 0x45u8, 0x47u8, 0x32u8]
}

/// The color space that a `C` parameter's value names.
pub open spec fn color_space_named(value: Seq<u8>) -> Option<ColorSpaceType> {
    if value == seq![0x34u8, 0x31u8, 0x30u8] {
        Some(ColorSpaceType::C410)
    } else if value == seq![0x34u8, 0x31u8, 0x31u8] {
        Some(ColorSpaceType::C411)
    } else if value == seq![0x34u8, 0x32u8, 0x30u8, 0x70u8, 0x31u8, 0x30u8] {
        Some(ColorSpaceType::C420p10)
    } else if value == seq![0x34u8, 0x32u8, 0x32u8] {
        Some(ColorSpaceType::C422)
    } else if value == seq![0x34u8, 0x34u8, 0x30u8] {
        Some(ColorSpaceType::C440)
    } else if value == seq![0x34u8, 0x34u8, 0x34u8] {
        Some(ColorSpaceType::C444)
    } else {
        None
    }
}

/// Nothing read yet: width, height and rate are still missing.
pub open spec fn no_fields() -> HeaderFields {
    HeaderFields {
        width: Err(HeaderError::MissingWidth),
        height: Err(HeaderError::MissingHeight),
        rate: None,
        interlace: None,
        aspect_ratio: None,
        color_space_type: None,
    }
}

/// A dimension's value as a number, or `error` where it is none.
pub open spec fn dimension(value: Seq<u8>, error: HeaderError) -> Result<u32, HeaderError> {
    match decimal_u32(value) {
        Some(n) => Ok(n),
        None => Err(error),
    }
}

/// The fields after one more parameter: a tag byte and its value. A later
/// parameter replaces an earlier one with the same tag; a width or height
/// that is no number is remembered and reported only if none replaces it.
pub open spec fn apply_param(fields: HeaderFields, param: Seq<u8>) -> Result<
    HeaderFields,
    HeaderError,
> {
    if param.len() == 0 {
        Err(HeaderError::EmptyParameter)
    } else {
        let value = param.subrange(1, param.len() as int);
        if !valid_utf8(value) {
            Err(HeaderError::InvalidText)
        } else if param[0] == 0x57 {
            Ok(HeaderFields { width: dimension(value, HeaderError::InvalidWidth), ..fields })
        } else if param[0] == 0x48 {
            Ok(HeaderFields { height: dimension(value, HeaderError::InvalidHeight), ..fields })
        } else if param[0] == 0x46 {
            Ok(HeaderFields { rate: Some(decode_utf8(value)), ..fields })
        } else if param[0] == 0x49 {
            Ok(HeaderFields { interlace: Some(decode_utf8(value)), ..fields })
        } else if param[0] == 0x41 {
            Ok(HeaderFields { aspect_ratio: Some(decode_utf8(value)), ..fields })
        } else if param[0] == 0x43 {
            match color_space_named(value) {
                Some(c) => Ok(HeaderFields { color_space_type: Some(c), ..fields }),
                None => Err(HeaderError::UnsupportedColorSpace),
            }
        } else if param[0] == 0x58 {
            Ok(fields)
        } else {
            Err(HeaderError::UnknownParameter)
        }
    }
}

/// The fields after all parameters that follow the separator at `sep`, in
/// the order of the line; the first parameter that is turned down ends the
/// reading. `sep` is the index of a space in `line`, or `line.len()`.
pub open spec fn apply_params(line: Seq<u8>, sep: nat, fields: HeaderFields) -> Result<
    HeaderFields,
    HeaderError,
>
    decreases line.len() - sep,
    via apply_params_decreases
{
    if sep >= line.len() {
        Ok(fields)
    } else {
        let end = find_byte(line, SPACE, sep as int + 1);
        match apply_param(fields, line.subrange(sep as int + 1, end)) {
            Ok(next) => apply_params(line, end as nat, next),
            Err(e) => Err(e),
        }
    }
}

#[via_fn]
proof fn apply_params_decreases(line: Seq<u8>, sep: nat, fields: HeaderFields) {
    if sep < line.len() {
        lemma_find_byte(line, SPACE, sep as int + 1);
    }
}

/// The header that the fields make, once width, height and rate are there.
pub open spec fn finish(fields: HeaderFields, as_bytes: Seq<u8>) -> Result<
    HeaderView,
    HeaderError,
> {
    match fields.width {
        Err(e) => Err(e),
        Ok(width) => match fields.height {
            Err(e) => Err(e),
            Ok(height) => match fields.rate {
                None => Err(HeaderError::MissingRate),
                Some(rate) => Ok(
                    HeaderView {
                        width,
                        height,
                        rate,
                        interlace: fields.interlace,
                        aspect_ratio: fields.aspect_ratio,
                        color_space_type: fields.color_space_type,
                        as_bytes,
                    },
                ),
            },
        },
    }
}

/// What a header line means. The line runs to the first line feed of
/// `input`; it is the magic word followed by parameters, each after one
/// space. The header keeps the line with its line feed.
pub open spec fn parse_header(input: Seq<u8>) -> Result<HeaderView, HeaderError> {
    let end = find_byte(input, LF, 0);
    if end >= input.len() {
        Err(HeaderError::MissingTerminator)
    } else {
        let line = input.subrange(0, end);
        let magic_end = find_byte(line, SPACE, 0);
        if line.subrange(0, magic_end) != magic() {
            Err(HeaderError::WrongMagic)
        } else {
            match apply_params(line, magic_end as nat, no_fields()) {
                Err(e) => Err(e),
                Ok(fields) => finish(fields, input.subrange(0, end + 1)),
            }
        }
    }
}

/// Bytes per frame for a picture of `width` by `height` pixels: the pixel
/// count times 5/4, 3/2, 3, 2, 2 or 3 by color space, `C420p10` where the
/// header names none.
pub open spec fn frame_size(
    width: nat,
    height: nat,
    color_space_type: Option<ColorSpaceType>,
) -> nat {
    let pixels = width * height;
    match color_space_type {
        Some(ColorSpaceType::C410) => (pixels * 5) / 4,
        Some(ColorSpaceType::C411) => (pixels * 3) / 2,
        Some(ColorSpaceType::C420p10) => pixels * 3,
        Some(ColorSpaceType::C422) => pixels * 2,
        Some(ColorSpaceType::C440) => pixels * 2,
        Some(ColorSpaceType::C444) => pixels * 3,
        None => pixels * 3,
    }
}

/// Writing out a header that was read gives back the line it was read from.
pub proof fn lemma_header_round_trip(input: Seq<u8>)
    requires
        parse_header(input) is Ok,
    ensures
        parse_header(input)->Ok_0.as_bytes == input.subrange(0, find_byte(input, LF, 0) + 1),
        parse_header(input)->Ok_0.as_bytes.last() == LF,
        parse_header(parse_header(input)->Ok_0.as_bytes) == parse_header(input),
{
    lemma_find_byte(input, LF, 0);
    let end = find_byte(input, LF, 0);
    let kept = input.subrange(0, end + 1);
    lemma_find_byte(kept, LF, 0);
    let kept_end = find_byte(kept, LF, 0);
    if kept_end < end {
        assert(kept[kept_end] == input[kept_end]);
    }
    assert(kept[end] == input[end]);
    assert(kept_end == end);
    assert(kept.subrange(0, end) =~= input.subrange(0, end));
    assert(kept.subrange(0, end + 1) =~= kept);
}

fn is_magic(word: &[u8]) -> (yes: bool)
    ensures
        yes == (word@ == magic()),
{
    let yes = word.len() == 9 && word[0] == 0x59 && word[1] == 0x55 && word[2] == 0x56 && word[3]
        == 0x34 && word[4] == 0x4D && word[5] == 0x50 && word[6] == 0x45 && word[7] == 0x47
        && word[8] == 0x32;
    proof {
        if yes {
            assert(word@ =~= magic());
        }
    }
    yes
}

fn is_three(value: &[u8], a: u8, b: u8, c: u8) -> (yes: bool)
    ensures
        yes == (value@ == seq![a, b, c]),
{
    let yes = value.len() == 3 && value[0] == a && value[1] == b && value[2] == c;
    proof {
        if yes {
            assert(value@ =~= seq![a, b, c]);
        } else if value@.len() == 3 {
            assert(seq![a, b, c][0] == a && seq![a, b, c][1] == b && seq![a, b, c][2] == c);
        }
    }
    yes
}

fn color_space(value: &[u8]) -> (named: Option<ColorSpaceType>)
    ensures
        named == color_space_named(value@),
{
    if is_three(value, 0x34, 0x31, 0x30) {
        Some(ColorSpaceType::C410)
    } else if is_three(value, 0x34, 0x31, 0x31) {
        Some(ColorSpaceType::C411)
    } else if value.len() == 6 && value[0] == 0x34 && value[1] == 0x32 && value[2] == 0x30
        && value[3] == 0x70 && value[4] == 0x31 && value[5] == 0x30 {
        assert(value@ =~= seq![0x34u8, 0x32u8, 0x30u8, 0x70u8, 0x31u8, 0x30u8]);
        Some(ColorSpaceType::C420p10)
    } else {
        proof {
            let long = seq![0x34u8, 0x32u8, 0x30u8, 0x70u8, 0x31u8, 0x30u8];
            if value@ == long {
                assert(long.len() == 6);
                assert(long[0] == 0x34 && long[1] == 0x32 && long[2] == 0x30 && long[3] == 0x70
                    && long[4] == 0x31 && long[5] == 0x30);
            }
        }
        if is_three(value, 0x34, 0x32, 0x32) {
            Some(ColorSpaceType::C422)
        } else if is_three(value, 0x34, 0x34, 0x30) {
            Some(ColorSpaceType::C440)
        } else if is_three(value, 0x34, 0x34, 0x34) {
            Some(ColorSpaceType::C444)
        } else {
            None
        }
    }
}

impl VideoHeader {
    /// A placeholder header of 240 by 160 pixels, with no line behind it.
    pub fn new() -> (header: VideoHeader)
        ensures
            header.width == 240,
            header.height == 160,
            header.rate@ == "1234"@,
            header.interlace is None,
            header.aspect_ratio is None,
            header.color_space_type is None,
            header.as_bytes@ == Seq::<u8>::empty(),
    {
        VideoHeader {
            width: 240,
            height: 160,
            rate: String::from_str("1234"),
            interlace: None,
            aspect_ratio: None,
            color_space_type: None,
            as_bytes: Vec::new(),
        }
    }

    /// Bytes per frame of the stream that the header opens.
    pub open spec fn frame_size(&self) -> nat {
        frame_size(self.width as nat, self.height as nat, self.color_space_type)
    }

    /// Bytes per frame, by the table of color spaces.
    pub fn calc_frame_size(&self) -> (size: usize)
        requires
            self.frame_size() <= usize::MAX,
        ensures
            size == self.frame_size(),
    {
        assert((self.width as int) * (self.height as int) <= 0xFFFF_FFFF * 0xFFFF_FFFF)
            by (nonlinear_arith)
            requires
                0 <= self.width <= 0xFFFF_FFFF,
                0 <= self.height <= 0xFFFF_FFFF,
        ;
        let pixels: u128 = (self.width as u128) * (self.height as u128);
        let size: u128 = match self.color_space_type {
            Some(ColorSpaceType::C410) => (pixels * 5) / 4,
            Some(ColorSpaceType::C411) => (pixels * 3) / 2,
            Some(ColorSpaceType::C420p10) => pixels * 3,
            Some(ColorSpaceType::C422) => pixels * 2,
            Some(ColorSpaceType::C440) => pixels * 2,
            Some(ColorSpaceType::C444) => pixels * 3,
            None => pixels * 3,
        };
        size as usize
    }

    /// Bytes per frame, or `None` where the size does not fit the machine.
    pub fn checked_frame_size(&self) -> (size: Option<usize>)
        ensures
            size == if self.frame_size() <= usize::MAX {
                Some(self.frame_size() as usize)
            } else {
                None
            },
    {
        assert((self.width as int) * (self.height as int) <= 0xFFFF_FFFF * 0xFFFF_FFFF)
            by (nonlinear_arith)
            requires
                0 <= self.width <= 0xFFFF_FFFF,
                0 <= self.height <= 0xFFFF_FFFF,
        ;
        let pixels: u128 = (self.width as u128) * (self.height as u128);
        let size: u128 = match self.color_space_type {
            Some(ColorSpaceType::C410) => (pixels * 5) / 4,
            Some(ColorSpaceType::C411) => (pixels * 3) / 2,
            Some(ColorSpaceType::C420p10) => pixels * 3,
            Some(ColorSpaceType::C422) => pixels * 2,
            Some(ColorSpaceType::C440) => pixels * 2,
            Some(ColorSpaceType::C444) => pixels * 3,
            None => pixels * 3,
        };
        if size <= usize::MAX as u128 {
            Some(size as usize)
        } else {
            None
        }
    }

    /// Appends the header's line to `writer`, byte for byte as it was read.
    pub fn write(self, writer: &mut Vec<u8>)
        ensures
            final(writer)@ == old(writer)@ + self.as_bytes@,
    {
        let mut line = self.as_bytes;
        writer.append(&mut line);
    }

    /// Reads the header that starts `input` and runs to its first line feed.
    pub fn read(input: &[u8]) -> (header: Result<VideoHeader, HeaderError>)
        ensures
            header matches Ok(h) ==> parse_header(input@) == Ok::<HeaderView, HeaderError>(h@),
            header matches Err(e) ==> parse_header(input@) == Err::<HeaderView, HeaderError>(e),
    {
        let end = find(input, LF, 0);
        if end >= input.len() {
            return Err(HeaderError::MissingTerminator);
        }
        let line = slice_subrange(input, 0, end);
        let magic_end = find(line, SPACE, 0);
        if !is_magic(slice_subrange(line, 0, magic_end)) {
            return Err(HeaderError::WrongMagic);
        }
        let mut width: Result<u32, HeaderError> = Err(HeaderError::MissingWidth);
        let mut height: Result<u32, HeaderError> = Err(HeaderError::MissingHeight);
        let mut rate: Option<String> = None;
        let mut interlace: Option<String> = None;
        let mut aspect_ratio: Option<String> = None;
        let mut color_space_type: Option<ColorSpaceType> = None;
        let ghost mut fields = no_fields();
        let mut sep: usize = magic_end;
        while sep < line.len()
            invariant
                sep <= line@.len(),
                fields == (HeaderFields {
                    width,
                    height,
                    rate: text_view(rate),
                    interlace: text_view(interlace),
                    aspect_ratio: text_view(aspect_ratio),
                    color_space_type,
                }),
                apply_params(line@, sep as nat, fields) == apply_params(
                    line@,
                    magic_end as nat,
                    no_fields(),
                ),
                line@ == input@.subrange(0, end as int),
                end < input@.len(),
                end == find_byte(input@, LF, 0),
                magic_end == find_byte(line@, SPACE, 0),
                line@.subrange(0, magic_end as int) == magic(),
            decreases line@.len() - sep,
        {
            let stop = find(line, SPACE, sep + 1);
            let param = slice_subrange(line, sep + 1, stop);
            if param.len() == 0 {
                return Err(HeaderError::EmptyParameter);
            }
            let value = slice_subrange(param, 1, param.len());
            let text = match utf8_text(value) {
                Some(t) => t,
                None => {
                    return Err(HeaderError::InvalidText);
                },
            };
            let tag = param[0];
            if tag == 0x57 {
                width = match parse_u32(value) {
                    Some(n) => Ok(n),
                    None => Err(HeaderError::InvalidWidth),
                };
            } else if tag == 0x48 {
                height = match parse_u32(value) {
                    Some(n) => Ok(n),
                    None => Err(HeaderError::InvalidHeight),
                };
            } else if tag == 0x46 {
                rate = Some(text);
            } else if tag == 0x49 {
                interlace = Some(text);
            } else if tag == 0x41 {
                aspect_ratio = Some(text);
            } else if tag == 0x43 {
                match color_space(value) {
                    Some(c) => {
                        color_space_type = Some(c);
                    },
                    None => {
                        return Err(HeaderError::UnsupportedColorSpace);
                    },
                }
            } else if tag == 0x58 {
            } else {
                return Err(HeaderError::UnknownParameter);
            }
            proof {
                fields = apply_param(fields, param@)->Ok_0;
            }
            sep = stop;
        }
        let as_bytes = slice_to_vec(slice_subrange(input, 0, end + 1));
        let width = match width {
            Ok(w) => w,
            Err(e) => {
                return Err(e);
            },
        };
        let height = match height {
            Ok(h) => h,
            Err(e) => {
                return Err(e);
            },
        };
        let rate = match rate {
            Some(r) => r,
            None => {
                return Err(HeaderError::MissingRate);
            },
        };
        Ok(VideoHeader { width, height, rate, interlace, aspect_ratio, color_space_type, as_bytes })
    }
}

} // verus!
