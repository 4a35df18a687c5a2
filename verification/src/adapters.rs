//! The three metadata source adapters, each a function from plain values
//! (raw container bytes, or the raw output of the external tag-reading
//! tool) to a canonical timestamp or a typed warning.

use vstd::prelude::*;
use vstd::utf8::decode_utf8;
use vstd::utf8::valid_utf8;

use crate::text::normalize_timestamp;
use crate::text::normalized;

verus! {

/// Everything that can go wrong for a single file; none of these aborts
/// the batch, each only excludes the file and asks for confirmation.
#[derive(Clone, Copy, Debug, PartialEq, Eq, Structural)]
pub enum Warning {
    /// A directory entry could not be read at all.
    UnreadableEntry,
    /// The file could not be opened for metadata reading.
    Unopenable,
    /// The container holds no decodable EXIF-style metadata.
    NoMetadata,
    /// Metadata is present but the capture-time tag is absent in the
    /// primary-image scope.
    MissingTag,
    /// The extension is on neither the image nor the video allow-list.
    UnsupportedExtension,
    /// The external metadata tool could not be executed.
    ToolExecutionError,
    /// The external tool produced no output: the requested tag is absent.
    EmptyOutput,
    /// The external tool produced output that is malformed or not UTF-8.
    DecodeError,
}

/// The context a tag number is interpreted in, mirrored from the decoder.
#[derive(Clone, Copy, Debug, PartialEq, Eq, Structural)]
pub enum TagContext {
    Tiff,
    Exif,
    Gps,
    Interop,
    Other,
}

/// One decoded metadata field: its context, tag number, IFD number
/// (0 is the primary image, 1 an embedded thumbnail) and rendered value.
pub struct ExifField {
    pub ctx: TagContext,
    pub tag: u16,
    pub ifd: u16,
    pub value: String,
}

/// The mathematical image of one decoded field.
pub ghost struct ExifFieldView {
    pub ctx: TagContext,
    pub tag: u16,
    pub ifd: u16,
    pub value: Seq<char>,
}

impl View for ExifField {
    type V = ExifFieldView;

    open spec fn view(&self) -> ExifFieldView {
        ExifFieldView { ctx: self.ctx, tag: self.tag, ifd: self.ifd, value: self.value@ }
    }
}

pub open spec fn views_of(fields: Seq<ExifField>) -> Seq<ExifFieldView> {
    fields.map_values(|f: ExifField| f@)
}

/// The field list that the EXIF decoder yields on the given container
/// bytes, or `None` when the container cannot be decoded.  The decoder's
/// result depends on the bytes alone.
pub uninterp spec fn exif_fields_of(bytes: Seq<u8>) -> Option<Seq<ExifFieldView>>;

/// Relies on exif::Reader::read_from_container and exif::Exif::fields:
/// decodes the EXIF-style metadata held in the raw bytes of an image file
/// and lists every tag instance with its context, tag number, IFD number
/// and rendered value, in decoding order; `None` when the container cannot
/// be decoded.
#[verifier::external_body]
fn decode_exif_fields(bytes: &Vec<u8>) -> (r: Option<Vec<ExifField>>)
    ensures
        match r {
            Some(v) => exif_fields_of(bytes@) == Some(views_of(v@)),
            None => exif_fields_of(bytes@) is None,
        },
{
    let mut cur = std::io::Cursor::new(bytes.as_slice());
    let ex = match exif::Reader::new().read_from_container(&mut cur) {
        Ok(ex) => ex, Err(_) => return None,
    };
    let mut v = Vec::new();
    for f in ex.fields() {
        let ctx = match f.tag.context() {
            exif::Context::Tiff => TagContext::Tiff, exif::Context::Exif => TagContext::Exif,
            exif::Context::Gps => TagContext::Gps, exif::Context::Interop => TagContext::Interop,
            _ => TagContext::Other,
        };
        v.push(ExifField { ctx, tag: f.tag.number(), ifd: f.ifd_num.index(), value: f.display_value().to_string() });
    }
    Some(v)
}

/// The capture-time tag this system goes by: `DateTimeOriginal` (0x9003 in
/// the Exif context), scoped to the primary image.  The general
/// `DateTime` tag (0x132, Tiff context) changes on any edit and is never
/// a match; neither is any tag scoped to an embedded thumbnail (IFD 1).
pub open spec fn is_primary_capture_time(f: ExifFieldView) -> bool {
    f.ctx == TagContext::Exif && f.tag == 0x9003 && f.ifd == 0
}

/// The raw value of the first primary-scoped capture-time field, if any.
pub open spec fn primary_capture_time_of(fields: Seq<ExifFieldView>) -> Option<Seq<char>>
    decreases fields.len(),
{
    if fields.len() == 0 {
        None
    } else if is_primary_capture_time(fields[0]) {
        Some(fields[0].value)
    } else {
        primary_capture_time_of(fields.drop_first())
    }
}

proof fn lemma_primary_capture_time_skip(fields: Seq<ExifFieldView>, i: int)
    requires
        0 <= i <= fields.len(),
        forall|k: int| 0 <= k < i ==> !is_primary_capture_time(fields[k]),
    ensures
        primary_capture_time_of(fields) == primary_capture_time_of(
            fields.subrange(i, fields.len() as int),
        ),
    decreases i,
{
    if i == 0 {
        assert(fields.subrange(0, fields.len() as int) =~= fields);
    } else {
        lemma_primary_capture_time_skip(fields.drop_first(), i - 1);
        assert(fields.drop_first().subrange(i - 1, fields.drop_first().len() as int)
            =~= fields.subrange(i, fields.len() as int));
    }
}

/// Picks the raw capture-time value out of a decoded field list: the first
/// field that is `DateTimeOriginal` in the Exif context and scoped to the
/// primary image.  Thumbnail-scoped instances and the general modification
/// time never qualify.
pub fn select_primary_capture_time(fields: &Vec<ExifField>) -> (r: Option<String>)
    ensures
        match r {
            Some(s) => primary_capture_time_of(views_of(fields@)) == Some(s@),
            None => primary_capture_time_of(views_of(fields@)) is None,
        },
{
    let n: usize = fields.len();
    let mut i: usize = 0;
    while i < n
        invariant
            n == fields@.len(),
            i <= n,
            forall|k: int| 0 <= k < i ==> !is_primary_capture_time(views_of(fields@)[k]),
        decreases n - i,
    {
        let f = &fields[i];
        if f.ctx == TagContext::Exif && f.tag == 0x9003 && f.ifd == 0 {
            let v = f.value.clone();
            proof {
                lemma_primary_capture_time_skip(views_of(fields@), i as int);
                assert(views_of(fields@).subrange(i as int, fields@.len() as int)[0]
                    == views_of(fields@)[i as int]);
            }
            return Some(v);
        }
        proof {
            assert(views_of(fields@)[i as int] == fields@[i as int]@);
        }
        i += 1;
    }
    proof {
        lemma_primary_capture_time_skip(views_of(fields@), n as int);
    }
    None
}

/// What the primary-container adapter yields on given container bytes.
pub open spec fn primary_of(bytes: Seq<u8>) -> Result<Seq<char>, Warning> {
    match exif_fields_of(bytes) {
        None => Err(Warning::NoMetadata),
        Some(fields) => match primary_capture_time_of(fields) {
            None => Err(Warning::MissingTag),
            Some(raw) => Ok(normalized(raw)),
        },
    }
}

/// The primary-container adapter: decodes the embedded metadata and
/// normalizes the primary-scoped capture time.
pub fn primary_timestamp(bytes: &Vec<u8>) -> (r: Result<String, Warning>)
    ensures
        match r {
            Ok(s) => primary_of(bytes@) == Ok::<Seq<char>, Warning>(s@),
            Err(w) => primary_of(bytes@) == Err::<Seq<char>, Warning>(w),
        },
{
    match decode_exif_fields(bytes) {
        None => Err(Warning::NoMetadata),
        Some(fields) => match select_primary_capture_time(&fields) {
            None => Err(Warning::MissingTag),
            Some(raw) => Ok(normalize_timestamp(raw.as_str())),
        },
    }
}

/// Relies on String::from_utf8: `Some` exactly when the bytes are valid
/// UTF-8, and then the string is their decoding.
#[verifier::external_body]
fn string_from_utf8(bytes: Vec<u8>) -> (r: Option<String>)
    ensures
        r matches Some(s) ==> valid_utf8(bytes@) && s@ == decode_utf8(bytes@),
        r is None ==> !valid_utf8(bytes@),
{
    match String::from_utf8(bytes) {
        Ok(s) => Some(s),
        Err(_) => None,
    }
}

/// What a tag-tool adapter yields on the tool's raw standard output, with
/// the given fixed-length suffix stripped (a trailing newline, and for the
/// timezone-carrying tag the offset segment before it).  Empty output
/// means the tag is absent; output shorter than the suffix, or not UTF-8,
/// is malformed.
pub open spec fn tool_value_of(out: Seq<u8>, strip: int) -> Result<Seq<char>, Warning> {
    if out.len() == 0 {
        Err(Warning::EmptyOutput)
    } else if out.len() < strip {
        Err(Warning::DecodeError)
    } else {
        let body = out.subrange(0, out.len() - strip);
        if valid_utf8(body) {
            Ok(normalized(decode_utf8(body)))
        } else {
            Err(Warning::DecodeError)
        }
    }
}

/// What the secondary tag adapter ("CreationDate") yields: the raw value
/// carries a trailing 6-character timezone offset plus a newline, 7
/// characters stripped in all.
pub open spec fn secondary_of(out: Seq<u8>) -> Result<Seq<char>, Warning> {
    tool_value_of(out, 7)
}

/// What the tertiary tag adapter ("CreateDate") yields: the raw value
/// carries no timezone, only the trailing newline is stripped, and the
/// result is timezone-ambiguous.
pub open spec fn tertiary_of(out: Seq<u8>) -> Result<Seq<char>, Warning> {
    tool_value_of(out, 1)
}

fn tool_timestamp(out: Vec<u8>, strip: usize) -> (r: Result<String, Warning>)
    requires
        1 <= strip,
    ensures
        match r {
            Ok(s) => tool_value_of(out@, strip as int) == Ok::<Seq<char>, Warning>(s@),
            Err(w) => tool_value_of(out@, strip as int) == Err::<Seq<char>, Warning>(w),
        },
{
    let n: usize = out.len();
    if n == 0 {
        return Err(Warning::EmptyOutput);
    }
    if n < strip {
        return Err(Warning::DecodeError);
    }
    let mut body = out;
    body.truncate(n - strip);
    match string_from_utf8(body) {
        Some(s) => Ok(normalize_timestamp(s.as_str())),
        None => Err(Warning::DecodeError),
    }
}

/// The secondary tag adapter, on the raw output of the external tool.
pub fn secondary_timestamp(out: Vec<u8>) -> (r: Result<String, Warning>)
    ensures
        match r {
            Ok(s) => secondary_of(out@) == Ok::<Seq<char>, Warning>(s@),
            Err(w) => secondary_of(out@) == Err::<Seq<char>, Warning>(w),
        },
{
    tool_timestamp(out, 7)
}

/// The tertiary tag adapter, on the raw output of the external tool.
pub fn tertiary_timestamp(out: Vec<u8>) -> (r: Result<String, Warning>)
    ensures
        match r {
            Ok(s) => tertiary_of(out@) == Ok::<Seq<char>, Warning>(s@),
            Err(w) => tertiary_of(out@) == Err::<Seq<char>, Warning>(w),
        },
{
    tool_timestamp(out, 1)
}

/// A thumbnail-scoped capture-time tag is never chosen: whenever the
/// selection yields a value, a primary-scoped field carries that value,
/// and a field list whose capture-time tags are all scoped to a thumbnail
/// (or any other non-primary IFD) yields nothing.
pub proof fn lemma_thumbnail_never_chosen(fields: Seq<ExifFieldView>)
    ensures
        primary_capture_time_of(fields) matches Some(v) ==> exists|i: int|
            0 <= i < fields.len() && is_primary_capture_time(fields[i]) && fields[i].ifd == 0
                && fields[i].value == v,
        (forall|i: int| 0 <= i < fields.len() ==> fields[i].ifd != 0) ==> primary_capture_time_of(
            fields,
        ) is None,
    decreases fields.len(),
{
    if fields.len() > 0 {
        lemma_thumbnail_never_chosen(fields.drop_first());
        if !is_primary_capture_time(fields[0]) {
            if primary_capture_time_of(fields) is Some {
                let v = primary_capture_time_of(fields)->Some_0;
                let j = choose|j: int|
                    0 <= j < fields.drop_first().len() && is_primary_capture_time(
                        fields.drop_first()[j],
                    ) && fields.drop_first()[j].ifd == 0 && fields.drop_first()[j].value == v;
                assert(fields[j + 1] == fields.drop_first()[j]);
            }
        }
    }
}

} // verus!
