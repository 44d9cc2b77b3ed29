//! Settings and parts of the presentation archive built from slide images.

use crate::errors::{BigError, Result};
use crate::paths::{extension, extension_of};
use crate::text::{
    append_str, chain, chain3, decimal, from_chars, opt_text, push_decimal, str_equal, to_chars,
};
use crate::utils::PathKind;
use vstd::prelude::*;

verus! {

/// How the presentation is packaged.
pub struct PptxConfig {
    pub title: String,
    pub pattern: String,
    /// `16:9` or `4:3`.
    pub aspect_ratio: String,
}

impl Default for PptxConfig {
    /// A wide-screen deck titled `Presentation`, made of every PNG image.
    fn default() -> (r: PptxConfig)
        ensures
            r.title@ == "Presentation"@,
            r.pattern@ == "*.png"@,
            r.aspect_ratio@ == "16:9"@,
    {
        PptxConfig {
            title: "Presentation".to_owned(),
            pattern: "*.png".to_owned(),
            aspect_ratio: "16:9".to_owned(),
        }
    }
}

/// The content types part up to the entries of the slides.
pub const CONTENT_TYPES_OPENING: &'static str = "<?xml version=\"1.0\" encoding=\"UTF-8\" standalone=\"yes\"?>\n<Types xmlns=\"http://schemas.openxmlformats.org/package/2006/content-types\">\n    <Default Extension=\"xml\" ContentType=\"application/xml\"/>\n    <Default Extension=\"rels\" ContentType=\"application/vnd.openxmlformats-package.relationships+xml\"/>\n    <Default Extension=\"jpeg\" ContentType=\"image/jpeg\"/>\n    <Default Extension=\"jpg\" ContentType=\"image/jpeg\"/>\n    <Default Extension=\"png\" ContentType=\"image/png\"/>\n    <Override PartName=\"/ppt/presentation.xml\" ContentType=\"application/vnd.openxmlformats-officedocument.presentationml.presentation.main+xml\"/>\n    <Override PartName=\"/ppt/slideMasters/slideMaster1.xml\" ContentType=\"application/vnd.openxmlformats-officedocument.presentationml.slideMaster+xml\"/>\n    <Override PartName=\"/ppt/slideLayouts/slideLayout1.xml\" ContentType=\"application/vnd.openxmlformats-officedocument.presentationml.slideLayout+xml\"/>\n    <Override PartName=\"/docProps/core.xml\" ContentType=\"application/vnd.openxmlformats-package.core-properties+xml\"/>\n    <Override PartName=\"/docProps/app.xml\" ContentType=\"application/vnd.openxmlformats-officedocument.extended-properties+xml\"/>\n    ";

/// The content types part after the entries of the slides.
pub const CONTENT_TYPES_CLOSING: &'static str = "\n</Types>";

/// The content type entry of a slide up to its number.
pub const SLIDE_OVERRIDE_OPENING: &'static str = "<Override PartName=\"/ppt/slides/slide";

/// The content type entry of a slide after its number.
pub const SLIDE_OVERRIDE_CLOSING: &'static str = ".xml\" ContentType=\"application/vnd.openxmlformats-officedocument.presentationml.slide+xml\"/>";

/// The relationships of the package.
pub const PACKAGE_RELS: &'static str = "<?xml version=\"1.0\" encoding=\"UTF-8\" standalone=\"yes\"?>\n<Relationships xmlns=\"http://schemas.openxmlformats.org/package/2006/relationships\">\n    <Relationship Id=\"rId1\" Type=\"http://schemas.openxmlformats.org/officeDocument/2006/relationships/officeDocument\" Target=\"ppt/presentation.xml\"/>\n    <Relationship Id=\"rId2\" Type=\"http://schemas.openxmlformats.org/package/2006/relationships/metadata/core-properties\" Target=\"docProps/core.xml\"/>\n    <Relationship Id=\"rId3\" Type=\"http://schemas.openxmlformats.org/officeDocument/2006/relationships/extended-properties\" Target=\"docProps/app.xml\"/>\n</Relationships>";

/// The application properties up to the number of slides.
pub const APP_OPENING: &'static str = "<?xml version=\"1.0\" encoding=\"UTF-8\" standalone=\"yes\"?>\n<Properties xmlns=\"http://schemas.openxmlformats.org/officeDocument/2006/extended-properties\" xmlns:vt=\"http://schemas.openxmlformats.org/officeDocument/2006/docPropsVTypes\">\n    <Application>big-slides</Application>\n    <Slides>";

/// The application properties after the number of slides.
pub const APP_CLOSING: &'static str = "</Slides>\n</Properties>";

/// The core properties up to the title.
pub const CORE_OPENING: &'static str = "<?xml version=\"1.0\" encoding=\"UTF-8\" standalone=\"yes\"?>\n<cp:coreProperties xmlns:cp=\"http://schemas.openxmlformats.org/package/2006/metadata/core-properties\" xmlns:dc=\"http://purl.org/dc/elements/1.1/\" xmlns:dcterms=\"http://purl.org/dc/terms/\" xmlns:dcmitype=\"http://purl.org/dc/dcmitype/\" xmlns:xsi=\"http://www.w3.org/2001/XMLSchema-instance\">\n    <dc:title>";

/// The core properties between the title and the time of creation.
pub const CORE_MIDDLE: &'static str = "</dc:title>\n    <dc:creator>big-slides</dc:creator>\n    <dcterms:created xsi:type=\"dcterms:W3CDTF\">";

/// The core properties after the time of creation.
pub const CORE_CLOSING: &'static str = "</dcterms:created>\n    <cp:revision>1</cp:revision>\n</cp:coreProperties>";

/// The relationships of the presentation up to those of the slides.
pub const PRESENTATION_RELS_OPENING: &'static str = "<?xml version=\"1.0\" encoding=\"UTF-8\" standalone=\"yes\"?>\n<Relationships xmlns=\"http://schemas.openxmlformats.org/package/2006/relationships\">\n    <Relationship Id=\"rIdSM\" Type=\"http://schemas.openxmlformats.org/officeDocument/2006/relationships/slideMaster\" Target=\"slideMasters/slideMaster1.xml\"/>\n";

/// The relationship to a slide up to its number.
pub const SLIDE_REL_OPENING: &'static str = "    <Relationship Id=\"rId";

/// The relationship to a slide between the two places of its number.
pub const SLIDE_REL_MIDDLE: &'static str = "\" Type=\"http://schemas.openxmlformats.org/officeDocument/2006/relationships/slide\" Target=\"slides/slide";

/// The relationship to a slide after its number.
pub const SLIDE_REL_CLOSING: &'static str = ".xml\"/>\n";

/// The end of the relationships of the presentation.
pub const PRESENTATION_RELS_CLOSING: &'static str = "</Relationships>";

/// The presentation part up to the list of slides.
pub const PRESENTATION_OPENING: &'static str = "<?xml version=\"1.0\" encoding=\"UTF-8\" standalone=\"yes\"?>\n<p:presentation xmlns:a=\"http://schemas.openxmlformats.org/drawingml/2006/main\" \n                xmlns:r=\"http://schemas.openxmlformats.org/officeDocument/2006/relationships\" \n                xmlns:p=\"http://schemas.openxmlformats.org/presentationml/2006/main\"\n                xmlns:mc=\"http://schemas.openxmlformats.org/markup-compatibility/2006\">\n    <p:sldMasterIdLst>\n        <p:sldMasterId id=\"2147483648\" r:id=\"rIdSM\"/>\n    </p:sldMasterIdLst>\n    <p:sldIdLst>\n";

/// The presentation part between the list of slides and the width.
pub const PRESENTATION_SIZE_WIDTH: &'static str = "\n    </p:sldIdLst>\n    <p:sldSz cx=\"";

/// The presentation part between the width and the height.
pub const PRESENTATION_SIZE_HEIGHT: &'static str = "\" cy=\"";

/// The presentation part between the height and the name of the size.
pub const PRESENTATION_SIZE_TYPE: &'static str = "\" type=\"";

/// The presentation part after the name of the size.
pub const PRESENTATION_CLOSING: &'static str = "\"/>\n    <p:notesSz cx=\"6858000\" cy=\"9144000\"/>\n    <p:defaultTextStyle>\n        <a:defPPr/>\n        <a:lvl1pPr marL=\"0\" algn=\"l\" defTabSz=\"914400\" rtl=\"0\" eaLnBrk=\"1\" latinLnBrk=\"0\" hangingPunct=\"1\">\n            <a:defRPr sz=\"1800\" kern=\"1200\">\n                <a:solidFill>\n                    <a:schemeClr val=\"tx1\"/>\n                </a:solidFill>\n                <a:latin typeface=\"+mn-lt\"/>\n                <a:ea typeface=\"+mn-ea\"/>\n                <a:cs typeface=\"+mn-cs\"/>\n            </a:defRPr>\n        </a:lvl1pPr>\n    </p:defaultTextStyle>\n</p:presentation>";

/// An entry of the list of slides up to its identifier.
pub const SLIDE_ID_OPENING: &'static str = "        <p:sldId id=\"";

/// An entry of the list of slides between its identifier and its number.
pub const SLIDE_ID_MIDDLE: &'static str = "\" r:id=\"rId";

/// An entry of the list of slides after its number.
pub const SLIDE_ID_CLOSING: &'static str = "\"/>";

/// The slide master.
pub const SLIDE_MASTER: &'static str = "<?xml version=\"1.0\" encoding=\"UTF-8\" standalone=\"yes\"?>\n<p:sldMaster xmlns:a=\"http://schemas.openxmlformats.org/drawingml/2006/main\" \n             xmlns:r=\"http://schemas.openxmlformats.org/officeDocument/2006/relationships\" \n             xmlns:p=\"http://schemas.openxmlformats.org/presentationml/2006/main\">\n    <p:cSld>\n        <p:bg>\n            <p:bgRef idx=\"1001\">\n                <a:schemeClr val=\"bg1\"/>\n            </p:bgRef>\n        </p:bg>\n        <p:spTree>\n            <p:nvGrpSpPr>\n                <p:cNvPr id=\"1\" name=\"\"/>\n                <p:cNvGrpSpPr/>\n                <p:nvPr/>\n            </p:nvGrpSpPr>\n            <p:grpSpPr>\n                <a:xfrm>\n                    <a:off x=\"0\" y=\"0\"/>\n                    <a:ext cx=\"0\" cy=\"0\"/>\n                    <a:chOff x=\"0\" y=\"0\"/>\n                    <a:chExt cx=\"0\" cy=\"0\"/>\n                </a:xfrm>\n            </p:grpSpPr>\n        </p:spTree>\n    </p:cSld>\n    <p:clrMap bg1=\"lt1\" tx1=\"dk1\" bg2=\"lt2\" tx2=\"dk2\" accent1=\"accent1\" accent2=\"accent2\" accent3=\"accent3\" accent4=\"accent4\" accent5=\"accent5\" accent6=\"accent6\" hlink=\"hlink\" folHlink=\"folHlink\"/>\n</p:sldMaster>";

/// The relationships of the slide master.
pub const SLIDE_MASTER_RELS: &'static str = "<?xml version=\"1.0\" encoding=\"UTF-8\" standalone=\"yes\"?>\n<Relationships xmlns=\"http://schemas.openxmlformats.org/package/2006/relationships\">\n    <Relationship Id=\"rId1\" Type=\"http://schemas.openxmlformats.org/officeDocument/2006/relationships/slideLayout\" Target=\"../slideLayouts/slideLayout1.xml\"/>\n</Relationships>";

/// The blank slide layout.
pub const SLIDE_LAYOUT: &'static str = "<?xml version=\"1.0\" encoding=\"UTF-8\" standalone=\"yes\"?>\n<p:sldLayout xmlns:a=\"http://schemas.openxmlformats.org/drawingml/2006/main\" \n             xmlns:r=\"http://schemas.openxmlformats.org/officeDocument/2006/relationships\" \n             xmlns:p=\"http://schemas.openxmlformats.org/presentationml/2006/main\" type=\"blank\">\n    <p:cSld name=\"Blank\">\n        <p:spTree>\n            <p:nvGrpSpPr>\n                <p:cNvPr id=\"1\" name=\"\"/>\n                <p:cNvGrpSpPr/>\n                <p:nvPr/>\n            </p:nvGrpSpPr>\n            <p:grpSpPr>\n                <a:xfrm>\n                    <a:off x=\"0\" y=\"0\"/>\n                    <a:ext cx=\"0\" cy=\"0\"/>\n                    <a:chOff x=\"0\" y=\"0\"/>\n                    <a:chExt cx=\"0\" cy=\"0\"/>\n                </a:xfrm>\n            </p:grpSpPr>\n        </p:spTree>\n    </p:cSld>\n    <p:clrMapOvr>\n        <a:masterClrMapping/>\n    </p:clrMapOvr>\n</p:sldLayout>";

/// The relationships of the slide layout.
pub const SLIDE_LAYOUT_RELS: &'static str = "<?xml version=\"1.0\" encoding=\"UTF-8\" standalone=\"yes\"?>\n<Relationships xmlns=\"http://schemas.openxmlformats.org/package/2006/relationships\">\n    <Relationship Id=\"rId1\" Type=\"http://schemas.openxmlformats.org/officeDocument/2006/relationships/slideMaster\" Target=\"../slideMasters/slideMaster1.xml\"/>\n</Relationships>";

/// The relationships of a slide up to the name of its image.
pub const IMAGE_RELS_OPENING: &'static str = "<?xml version=\"1.0\" encoding=\"UTF-8\" standalone=\"yes\"?>\n<Relationships xmlns=\"http://schemas.openxmlformats.org/package/2006/relationships\">\n    <Relationship Id=\"rId1\" Type=\"http://schemas.openxmlformats.org/officeDocument/2006/relationships/image\" Target=\"../media/";

/// The relationships of a slide after the name of its image.
pub const IMAGE_RELS_CLOSING: &'static str = "\"/>\n    <Relationship Id=\"rId2\" Type=\"http://schemas.openxmlformats.org/officeDocument/2006/relationships/slideLayout\" Target=\"../slideLayouts/slideLayout1.xml\"/>\n</Relationships>";

/// A slide up to its number in its name.
pub const SLIDE_OPENING: &'static str = "<?xml version=\"1.0\" encoding=\"UTF-8\" standalone=\"yes\"?>\n<p:sld xmlns:a=\"http://schemas.openxmlformats.org/drawingml/2006/main\" \n       xmlns:r=\"http://schemas.openxmlformats.org/officeDocument/2006/relationships\" \n       xmlns:p=\"http://schemas.openxmlformats.org/presentationml/2006/main\"\n       xmlns:mc=\"http://schemas.openxmlformats.org/markup-compatibility/2006\">\n    <p:cSld name=\"Slide ";

/// A slide between its number in its name and in the name of its picture.
pub const SLIDE_NAME_TO_PICTURE: &'static str = "\">\n        <p:spTree>\n            <p:nvGrpSpPr>\n                <p:cNvPr id=\"1\" name=\"\"/>\n                <p:cNvGrpSpPr/>\n                <p:nvPr/>\n            </p:nvGrpSpPr>\n            <p:grpSpPr>\n                <a:xfrm>\n                    <a:off x=\"0\" y=\"0\"/>\n                    <a:ext cx=\"0\" cy=\"0\"/>\n                    <a:chOff x=\"0\" y=\"0\"/>\n                    <a:chExt cx=\"0\" cy=\"0\"/>\n                </a:xfrm>\n            </p:grpSpPr>\n            <p:pic>\n                <p:nvPicPr>\n                    <p:cNvPr id=\"2\" name=\"Slide Image ";

/// A slide between the name of its picture and the width.
pub const SLIDE_PICTURE_TO_WIDTH: &'static str = "\"/>\n                    <p:cNvPicPr>\n                        <a:picLocks noChangeAspect=\"1\"/>\n                    </p:cNvPicPr>\n                    <p:nvPr/>\n                </p:nvPicPr>\n                <p:blipFill>\n                    <a:blip r:embed=\"rId1\">\n                        <a:extLst>\n                            <a:ext uri=\"{28A0092B-C50C-407E-A947-70E740481C1C}\">\n                                <a14:useLocalDpi xmlns:a14=\"http://schemas.microsoft.com/office/drawing/2010/main\" val=\"0\"/>\n                            </a:ext>\n                        </a:extLst>\n                    </a:blip>\n                    <a:stretch>\n                        <a:fillRect/>\n                    </a:stretch>\n                </p:blipFill>\n                <p:spPr>\n                    <a:xfrm>\n                        <a:off x=\"0\" y=\"0\"/>\n                        <a:ext cx=\"";

/// A slide between the width and the height.
pub const SLIDE_WIDTH_TO_HEIGHT: &'static str = "\" cy=\"";

/// A slide after the height.
pub const SLIDE_CLOSING: &'static str = "\"/>\n                    </a:xfrm>\n                    <a:prstGeom prst=\"rect\">\n                        <a:avLst/>\n                    </a:prstGeom>\n                </p:spPr>\n            </p:pic>\n        </p:spTree>\n    </p:cSld>\n    <p:clrMapOvr>\n        <a:masterClrMapping/>\n    </p:clrMapOvr>\n</p:sld>";

/// A slide image as it was found: its path, and its bytes where the file
/// could be read.
#[derive(Debug, Clone)]
pub struct SlideImage {
    pub path: String,
    pub data: Option<Vec<u8>>,
}

/// What a part of the archive holds.
#[derive(Debug, Clone, PartialEq, Eq)]
pub enum Payload {
    Text(String),
    Bytes(Vec<u8>),
}

/// A part of the archive: its name and what it holds.
#[derive(Debug, Clone, PartialEq, Eq)]
pub struct ArchiveEntry {
    pub name: String,
    pub payload: Payload,
}

/// What a part holds, as a value.
pub enum Content {
    Text(Seq<char>),
    Bytes(Seq<u8>),
}

/// A part of the archive, as a value.
pub struct Part {
    pub name: Seq<char>,
    pub content: Content,
}

impl View for ArchiveEntry {
    type V = Part;

    open spec fn view(&self) -> Part {
        Part {
            name: self.name@,
            content: match self.payload {
                Payload::Text(t) => Content::Text(t@),
                Payload::Bytes(b) => Content::Bytes(b@),
            },
        }
    }
}

/// The parts that the entries of `v` stand for.
pub open spec fn parts(v: Seq<ArchiveEntry>) -> Seq<Part> {
    Seq::new(v.len(), |i: int| v[i]@)
}

/// A part that holds text.
pub open spec fn text_part(name: Seq<char>, text: Seq<char>) -> Part {
    Part { name, content: Content::Text(text) }
}

/// Whether an image decodes: its bytes are a sound image of the format that
/// the extension of its path names.
pub uninterp spec fn image_decodes(path: Seq<char>, data: Seq<u8>) -> bool;

/// How the time of creation is written: year, month, day, `T`, hour,
/// minute, second and `Z`.
pub const TIMESTAMP_FORMAT: &'static str = "%Y-%m-%dT%H:%M:%SZ";

/// The time `seconds` after the start of 1970, in UTC, written as `format`
/// says; `None` for a time that the calendar does not reach.
pub uninterp spec fn timestamp_text(seconds: i64, format: Seq<char>) -> Option<Seq<char>>;

/// The reader of the `image` crate, given the format that
/// `ImageFormat::from_path` reads off the path, and its `decode`: whether
/// decoding succeeds depends on the path and the bytes alone.
#[verifier::external_body]
pub(crate) fn decodes(path: &str, data: &Vec<u8>) -> (r: bool)
    ensures
        r == image_decodes(path@, data@),
{
    let mut reader = image::io::Reader::new(std::io::Cursor::new(data.as_slice()));
    if let Ok(format) = image::ImageFormat::from_path(path) {
        reader.set_format(format);
    }
    reader.decode().is_ok()
}

/// `chrono::DateTime::from_timestamp` and `format`: the text of a time, which
/// depends on the number of seconds and the format alone. The format is the
/// one above, which names no item that chrono cannot write.
#[verifier::external_body]
pub(crate) fn timestamp(seconds: i64, format: &str) -> (r: Option<String>)
    requires
        format@ == TIMESTAMP_FORMAT@,
    ensures
        match r {
            Some(t) => timestamp_text(seconds, format@) == Some(t@),
            None => timestamp_text(seconds, format@) is None,
        },
{
    match chrono::DateTime::from_timestamp(seconds, 0) {
        Some(t) => Some(t.format(format).to_string()),
        None => None,
    }
}

/// The width and height of a slide, in English Metric Units: those of a 4:3
/// slide where `4:3` is asked for, and those of a 16:9 slide otherwise.
pub open spec fn slide_size_of(aspect_ratio: Seq<char>) -> (u64, u64) {
    if aspect_ratio == "16:9"@ {
        (9144000, 5143500)
    } else if aspect_ratio == "4:3"@ {
        (9144000, 6858000)
    } else {
        (9144000, 5143500)
    }
}

/// The name of the slide size.
pub open spec fn slide_size_name_of(aspect_ratio: Seq<char>) -> Seq<char> {
    if aspect_ratio == "16:9"@ {
        "screen16x9"@
    } else if aspect_ratio == "4:3"@ {
        "screen4x3"@
    } else {
        "screen16x9"@
    }
}

/// The width and height of a slide, in English Metric Units.
pub fn slide_size(aspect_ratio: &str) -> (r: (u64, u64))
    ensures
        r == slide_size_of(aspect_ratio@),
{
    if str_equal(aspect_ratio, "16:9") {
        (9144000, 5143500)
    } else if str_equal(aspect_ratio, "4:3") {
        (9144000, 6858000)
    } else {
        (9144000, 5143500)
    }
}

/// The name of the slide size.
pub fn slide_size_name(aspect_ratio: &str) -> (r: &'static str)
    ensures
        r@ == slide_size_name_of(aspect_ratio@),
{
    if str_equal(aspect_ratio, "16:9") {
        "screen16x9"
    } else if str_equal(aspect_ratio, "4:3") {
        "screen4x3"
    } else {
        "screen16x9"
    }
}

/// One line per slide from 1 to `count`, each made of `opening`, the
/// slide's number and `closing`, with a line feed between two lines.
pub open spec fn numbered_lines(opening: Seq<char>, closing: Seq<char>, count: nat) -> Seq<char>
    decreases count,
{
    if count == 0 {
        Seq::empty()
    } else if count == 1 {
        opening + decimal(1) + closing
    } else {
        numbered_lines(opening, closing, (count - 1) as nat) + "\n"@ + (opening + decimal(count)
            + closing)
    }
}

/// Appends one numbered line per slide.
pub fn push_numbered_lines(out: &mut Vec<char>, opening: &str, closing: &str, count: usize)
    ensures
        final(out)@ == old(out)@ + numbered_lines(opening@, closing@, count as nat),
{
    let mut i: usize = 0;
    proof {
        assert(out@ =~= old(out)@ + numbered_lines(opening@, closing@, 0));
    }
    while i < count
        invariant
            i <= count,
            out@ == old(out)@ + numbered_lines(opening@, closing@, i as nat),
        decreases count - i,
    {
        let ghost done = numbered_lines(opening@, closing@, i as nat);
        if i > 0 {
            append_str(out, "\n");
        }
        append_str(out, opening);
        push_decimal(out, i as u128 + 1);
        append_str(out, closing);
        proof {
            let line = opening@ + decimal((i + 1) as nat) + closing@;
            if i > 0 {
                assert(out@ =~= old(out)@ + (done + "\n"@ + line));
            } else {
                assert(done =~= Seq::<char>::empty());
                assert(out@ =~= old(out)@ + line);
            }
        }
        i += 1;
    }
}

/// The content types part for `count` slides.
pub open spec fn content_types_of(count: nat) -> Seq<char> {
    CONTENT_TYPES_OPENING@ + numbered_lines(
        SLIDE_OVERRIDE_OPENING@,
        SLIDE_OVERRIDE_CLOSING@,
        count,
    ) + CONTENT_TYPES_CLOSING@
}

/// The content types part for `count` slides.
pub fn content_types(count: usize) -> (r: String)
    ensures
        r@ == content_types_of(count as nat),
{
    let mut out = to_chars(CONTENT_TYPES_OPENING);
    push_numbered_lines(&mut out, SLIDE_OVERRIDE_OPENING, SLIDE_OVERRIDE_CLOSING, count);
    append_str(&mut out, CONTENT_TYPES_CLOSING);
    from_chars(&out)
}

/// The application properties for `count` slides.
pub open spec fn app_properties_of(count: nat) -> Seq<char> {
    APP_OPENING@ + decimal(count) + APP_CLOSING@
}

/// The application properties for `count` slides.
pub fn app_properties(count: usize) -> (r: String)
    ensures
        r@ == app_properties_of(count as nat),
{
    let mut out = to_chars(APP_OPENING);
    push_decimal(&mut out, count as u128);
    append_str(&mut out, APP_CLOSING);
    from_chars(&out)
}

/// The core properties of a presentation with this title, created at the
/// time that `created` names.
pub open spec fn core_properties_of(title: Seq<char>, created: Seq<char>) -> Seq<char> {
    CORE_OPENING@ + title + CORE_MIDDLE@ + created + CORE_CLOSING@
}

/// The core properties of a presentation.
pub fn core_properties(title: &str, created: &str) -> (r: String)
    ensures
        r@ == core_properties_of(title@, created@),
{
    let mut out = to_chars(CORE_OPENING);
    append_str(&mut out, title);
    append_str(&mut out, CORE_MIDDLE);
    append_str(&mut out, created);
    append_str(&mut out, CORE_CLOSING);
    from_chars(&out)
}

/// The relationships to the slides from 1 to `count`, each on a line of its
/// own.
pub open spec fn slide_relationships(count: nat) -> Seq<char>
    decreases count,
{
    if count == 0 {
        Seq::empty()
    } else {
        slide_relationships((count - 1) as nat) + (SLIDE_REL_OPENING@ + decimal(count)
            + SLIDE_REL_MIDDLE@ + decimal(count) + SLIDE_REL_CLOSING@)
    }
}

/// The relationships of a presentation of `count` slides: the slide master
/// first, then the slides.
pub open spec fn presentation_rels_of(count: nat) -> Seq<char> {
    PRESENTATION_RELS_OPENING@ + slide_relationships(count) + PRESENTATION_RELS_CLOSING@
}

/// The relationships of a presentation of `count` slides.
pub fn presentation_rels(count: usize) -> (r: String)
    ensures
        r@ == presentation_rels_of(count as nat),
{
    let mut out = to_chars(PRESENTATION_RELS_OPENING);
    let ghost start = out@;
    let mut i: usize = 0;
    proof {
        assert(out@ =~= start + slide_relationships(0));
    }
    while i < count
        invariant
            i <= count,
            out@ == start + slide_relationships(i as nat),
        decreases count - i,
    {
        let ghost done = slide_relationships(i as nat);
        append_str(&mut out, SLIDE_REL_OPENING);
        push_decimal(&mut out, i as u128 + 1);
        append_str(&mut out, SLIDE_REL_MIDDLE);
        push_decimal(&mut out, i as u128 + 1);
        append_str(&mut out, SLIDE_REL_CLOSING);
        proof {
            let n = (i + 1) as nat;
            assert(out@ =~= start + (done + (SLIDE_REL_OPENING@ + decimal(n) + SLIDE_REL_MIDDLE@
                + decimal(n) + SLIDE_REL_CLOSING@)));
        }
        i += 1;
    }
    append_str(&mut out, PRESENTATION_RELS_CLOSING);
    from_chars(&out)
}

/// The list of the slides from 1 to `count`: the k-th has the identifier
/// 255 + k, with a line feed between two entries.
pub open spec fn slide_ids(count: nat) -> Seq<char>
    decreases count,
{
    if count == 0 {
        Seq::empty()
    } else {
        let entry = SLIDE_ID_OPENING@ + decimal(255 + count) + SLIDE_ID_MIDDLE@ + decimal(count)
            + SLIDE_ID_CLOSING@;
        if count == 1 {
            entry
        } else {
            slide_ids((count - 1) as nat) + "\n"@ + entry
        }
    }
}

/// The presentation part for `count` slides of the size that
/// `aspect_ratio` asks for.
pub open spec fn presentation_of(count: nat, aspect_ratio: Seq<char>) -> Seq<char> {
    PRESENTATION_OPENING@ + slide_ids(count) + PRESENTATION_SIZE_WIDTH@ + decimal(
        slide_size_of(aspect_ratio).0 as nat,
    ) + PRESENTATION_SIZE_HEIGHT@ + decimal(slide_size_of(aspect_ratio).1 as nat)
        + PRESENTATION_SIZE_TYPE@ + slide_size_name_of(aspect_ratio) + PRESENTATION_CLOSING@
}

/// The presentation part.
pub fn presentation(count: usize, aspect_ratio: &str) -> (r: String)
    ensures
        r@ == presentation_of(count as nat, aspect_ratio@),
{
    let (cx, cy) = slide_size(aspect_ratio);
    let mut out = to_chars(PRESENTATION_OPENING);
    let ghost start = out@;
    let mut i: usize = 0;
    proof {
        assert(out@ =~= start + slide_ids(0));
    }
    while i < count
        invariant
            i <= count,
            out@ == start + slide_ids(i as nat),
        decreases count - i,
    {
        let ghost done = slide_ids(i as nat);
        if i > 0 {
            append_str(&mut out, "\n");
        }
        append_str(&mut out, SLIDE_ID_OPENING);
        push_decimal(&mut out, i as u128 + 256);
        append_str(&mut out, SLIDE_ID_MIDDLE);
        push_decimal(&mut out, i as u128 + 1);
        append_str(&mut out, SLIDE_ID_CLOSING);
        proof {
            let n = (i + 1) as nat;
            let entry = SLIDE_ID_OPENING@ + decimal(255 + n) + SLIDE_ID_MIDDLE@ + decimal(n)
                + SLIDE_ID_CLOSING@;
            if i > 0 {
                assert(out@ =~= start + (done + "\n"@ + entry));
            } else {
                assert(done =~= Seq::<char>::empty());
                assert(out@ =~= start + entry);
            }
        }
        i += 1;
    }
    append_str(&mut out, PRESENTATION_SIZE_WIDTH);
    push_decimal(&mut out, cx as u128);
    append_str(&mut out, PRESENTATION_SIZE_HEIGHT);
    push_decimal(&mut out, cy as u128);
    append_str(&mut out, PRESENTATION_SIZE_TYPE);
    append_str(&mut out, slide_size_name(aspect_ratio));
    append_str(&mut out, PRESENTATION_CLOSING);
    from_chars(&out)
}

/// The name of an image in the archive: `image`, the number of its slide,
/// a dot and the extension, which is empty where there is none.
pub open spec fn image_name_with(number: nat, extension: Option<Seq<char>>) -> Seq<char> {
    "image"@ + decimal(number) + "."@ + match extension {
        Some(e) => e,
        None => Seq::empty(),
    }
}

/// The name of the image of slide `number` in the archive: `image`, the
/// number, a dot and the extension of the image's path, which is empty
/// where the path has none.
pub open spec fn image_name_of(number: nat, path: Seq<char>) -> Seq<char> {
    image_name_with(number, extension_of(path))
}

/// The name of an image in the archive, from the number of its slide and
/// the extension of its path.
pub fn image_name_for(number: usize, extension: &Option<String>) -> (r: String)
    ensures
        r@ == image_name_with(number as nat, opt_text(*extension)),
{
    let mut out = to_chars("image");
    push_decimal(&mut out, number as u128);
    append_str(&mut out, ".");
    match extension {
        Some(e) => {
            append_str(&mut out, e.as_str());
        },
        None => {
            proof {
                assert(out@ + Seq::<char>::empty() =~= out@);
            }
        },
    }
    from_chars(&out)
}

/// The name of the image of slide `number` in the archive.
pub fn image_name(number: usize, path: &str) -> (r: String)
    ensures
        r@ == image_name_of(number as nat, path@),
{
    image_name_for(number, &extension(path))
}

/// The relationships of a slide whose image has this name.
pub open spec fn slide_rels_of(image: Seq<char>) -> Seq<char> {
    IMAGE_RELS_OPENING@ + image + IMAGE_RELS_CLOSING@
}

/// The slide with this number: one picture that fills it.
pub open spec fn slide_of(number: nat, aspect_ratio: Seq<char>) -> Seq<char> {
    SLIDE_OPENING@ + decimal(number) + SLIDE_NAME_TO_PICTURE@ + decimal(number)
        + SLIDE_PICTURE_TO_WIDTH@ + decimal(slide_size_of(aspect_ratio).0 as nat)
        + SLIDE_WIDTH_TO_HEIGHT@ + decimal(slide_size_of(aspect_ratio).1 as nat) + SLIDE_CLOSING@
}

/// The slide with this number.
pub fn slide(number: usize, aspect_ratio: &str) -> (r: String)
    ensures
        r@ == slide_of(number as nat, aspect_ratio@),
{
    let (cx, cy) = slide_size(aspect_ratio);
    let mut out = to_chars(SLIDE_OPENING);
    push_decimal(&mut out, number as u128);
    append_str(&mut out, SLIDE_NAME_TO_PICTURE);
    push_decimal(&mut out, number as u128);
    append_str(&mut out, SLIDE_PICTURE_TO_WIDTH);
    push_decimal(&mut out, cx as u128);
    append_str(&mut out, SLIDE_WIDTH_TO_HEIGHT);
    push_decimal(&mut out, cy as u128);
    append_str(&mut out, SLIDE_CLOSING);
    from_chars(&out)
}

/// The name of a numbered part: `opening`, the number, `closing`.
pub open spec fn numbered_name(opening: Seq<char>, number: nat, closing: Seq<char>) -> Seq<char> {
    opening + decimal(number) + closing
}

/// The name of a numbered part.
pub fn part_name(opening: &str, number: usize, closing: &str) -> (r: String)
    ensures
        r@ == numbered_name(opening@, number as nat, closing@),
{
    let mut out = to_chars(opening);
    push_decimal(&mut out, number as u128);
    append_str(&mut out, closing);
    from_chars(&out)
}

/// The parts that every presentation of `count` slides has, in the order in
/// which they are written.
pub open spec fn fixed_parts(count: nat, config: PptxConfig, created: Seq<char>) -> Seq<Part> {
    seq![
        text_part("[Content_Types].xml"@, content_types_of(count)),
        text_part("_rels/.rels"@, PACKAGE_RELS@),
        text_part("docProps/app.xml"@, app_properties_of(count)),
        text_part("docProps/core.xml"@, core_properties_of(config.title@, created)),
        text_part("ppt/_rels/presentation.xml.rels"@, presentation_rels_of(count)),
        text_part("ppt/presentation.xml"@, presentation_of(count, config.aspect_ratio@)),
        text_part("ppt/slideMasters/slideMaster1.xml"@, SLIDE_MASTER@),
        text_part("ppt/slideMasters/_rels/slideMaster1.xml.rels"@, SLIDE_MASTER_RELS@),
        text_part("ppt/slideLayouts/slideLayout1.xml"@, SLIDE_LAYOUT@),
        text_part("ppt/slideLayouts/_rels/slideLayout1.xml.rels"@, SLIDE_LAYOUT_RELS@),
    ]
}

/// The parts of the slide with this number whose image has these bytes and
/// goes by this name in the archive: the bytes and the slide's
/// relationships, and the slide itself only if the image decodes.
pub open spec fn image_parts(
    bytes: Seq<u8>,
    name: Seq<char>,
    decodes: bool,
    number: nat,
    aspect_ratio: Seq<char>,
) -> Seq<Part> {
    let first = seq![
        Part { name: "ppt/media/"@ + name, content: Content::Bytes(bytes) },
        text_part(
            numbered_name("ppt/slides/_rels/slide"@, number, ".xml.rels"@),
            slide_rels_of(name),
        ),
    ];
    if decodes {
        first.push(
            text_part(
                numbered_name("ppt/slides/slide"@, number, ".xml"@),
                slide_of(number, aspect_ratio),
            ),
        )
    } else {
        first
    }
}

/// The parts of the slide with this number. An image that could not be
/// read has none. One that was read has its bytes and the slide's
/// relationships, and the slide itself only if the image decodes.
pub open spec fn slide_parts(image: SlideImage, number: nat, aspect_ratio: Seq<char>) -> Seq<
    Part,
> {
    match image.data {
        None => Seq::empty(),
        Some(bytes) => image_parts(
            bytes@,
            image_name_of(number, image.path@),
            image_decodes(image.path@, bytes@),
            number,
            aspect_ratio,
        ),
    }
}

/// The parts of all slides, numbered from 1 in the order of the images.
pub open spec fn all_slide_parts(images: Seq<SlideImage>, aspect_ratio: Seq<char>) -> Seq<Part>
    decreases images.len(),
{
    if images.len() == 0 {
        Seq::empty()
    } else {
        all_slide_parts(images.drop_last(), aspect_ratio) + slide_parts(
            images.last(),
            images.len(),
            aspect_ratio,
        )
    }
}

/// The parts of the presentation, in the order in which they are written.
pub open spec fn package_parts(images: Seq<SlideImage>, config: PptxConfig, created: Seq<char>)
    -> Seq<Part> {
    fixed_parts(images.len(), config, created) + all_slide_parts(images, config.aspect_ratio@)
}

/// The pattern that is searched: `pattern` below the directory.
pub open spec fn search_pattern(dir: Seq<char>, pattern: Seq<char>) -> Seq<char> {
    dir + "/"@ + pattern
}

/// A copy of `v`.
pub fn copy_bytes(v: &Vec<u8>) -> (r: Vec<u8>)
    ensures
        r@ == v@,
{
    let mut r: Vec<u8> = Vec::new();
    let mut i: usize = 0;
    while i < v.len()
        invariant
            i <= v.len(),
            r@ == v@.take(i as int),
        decreases v.len() - i,
    {
        r.push(v[i]);
        proof {
            assert(v@.take(i as int).push(v@[i as int]) =~= v@.take(i as int + 1));
        }
        i += 1;
    }
    proof {
        assert(v@.take(v.len() as int) =~= v@);
    }
    r
}

/// A part that holds text.
pub fn text_entry(name: &str, text: String) -> (e: ArchiveEntry)
    ensures
        e@ == text_part(name@, text@),
{
    ArchiveEntry { name: name.to_owned(), payload: Payload::Text(text) }
}

/// Appends the parts that every presentation has.
pub fn push_fixed_parts(out: &mut Vec<ArchiveEntry>, count: usize, config: &PptxConfig, created: &str)
    ensures
        parts(final(out)@) == parts(old(out)@) + fixed_parts(count as nat, *config, created@),
{
    out.push(text_entry("[Content_Types].xml", content_types(count)));
    out.push(text_entry("_rels/.rels", PACKAGE_RELS.to_owned()));
    out.push(text_entry("docProps/app.xml", app_properties(count)));
    out.push(text_entry("docProps/core.xml", core_properties(config.title.as_str(), created)));
    out.push(text_entry("ppt/_rels/presentation.xml.rels", presentation_rels(count)));
    out.push(
        text_entry("ppt/presentation.xml", presentation(count, config.aspect_ratio.as_str())),
    );
    out.push(text_entry("ppt/slideMasters/slideMaster1.xml", SLIDE_MASTER.to_owned()));
    out.push(
        text_entry("ppt/slideMasters/_rels/slideMaster1.xml.rels", SLIDE_MASTER_RELS.to_owned()),
    );
    out.push(text_entry("ppt/slideLayouts/slideLayout1.xml", SLIDE_LAYOUT.to_owned()));
    out.push(
        text_entry("ppt/slideLayouts/_rels/slideLayout1.xml.rels", SLIDE_LAYOUT_RELS.to_owned()),
    );
    proof {
        assert(parts(out@) =~= parts(old(out)@) + fixed_parts(count as nat, *config, created@));
    }
}

/// Appends the parts of the slide with this number.
pub fn push_slide_parts(
    out: &mut Vec<ArchiveEntry>,
    image: &SlideImage,
    number: usize,
    aspect_ratio: &str,
)
    ensures
        parts(final(out)@) == parts(old(out)@) + slide_parts(*image, number as nat, aspect_ratio@),
{
    match &image.data {
        None => {
            proof {
                assert(parts(out@) =~= parts(old(out)@) + Seq::<Part>::empty());
            }
        },
        Some(bytes) => {
            let name = image_name(number, image.path.as_str());
            let sound = decodes(image.path.as_str(), bytes);
            push_image_parts(out, bytes, name.as_str(), sound, number, aspect_ratio);
        },
    }
}

/// Appends the parts of the slide with this number, whose image has these
/// bytes and this name in the archive. `decodes` tells whether the image
/// decodes.
pub fn push_image_parts(
    out: &mut Vec<ArchiveEntry>,
    bytes: &Vec<u8>,
    name: &str,
    decodes: bool,
    number: usize,
    aspect_ratio: &str,
)
    ensures
        parts(final(out)@) == parts(old(out)@) + image_parts(
            bytes@,
            name@,
            decodes,
            number as nat,
            aspect_ratio@,
        ),
{
    out.push(
        ArchiveEntry {
            name: chain("ppt/media/", name),
            payload: Payload::Bytes(copy_bytes(bytes)),
        },
    );
    let rels = chain3(IMAGE_RELS_OPENING, name, IMAGE_RELS_CLOSING);
    let rels_name = part_name("ppt/slides/_rels/slide", number, ".xml.rels");
    out.push(text_entry(rels_name.as_str(), rels));
    if decodes {
        let slide_name = part_name("ppt/slides/slide", number, ".xml");
        out.push(text_entry(slide_name.as_str(), slide(number, aspect_ratio)));
    }
    proof {
        assert(parts(out@) =~= parts(old(out)@) + image_parts(
            bytes@,
            name@,
            decodes,
            number as nat,
            aspect_ratio@,
        ));
    }
}

/// Whether `r` is what a search for slide images comes to: the images that
/// were found; the refusal of a pattern that cannot be read; or, where
/// nothing was found, the error that names the pattern searched.
pub open spec fn is_search_result<T>(
    r: Result<Vec<T>>,
    dir: Seq<char>,
    pattern: Seq<char>,
    found: std::result::Result<Vec<T>, String>,
) -> bool {
    match found {
        Err(cause) => r matches Err(BigError::PptxError(d)) && d@ == "Invalid glob pattern: "@
            + cause@,
        Ok(images) => if images@.len() == 0 {
            r matches Err(BigError::NoSlidesFoundError(p)) && p@ == search_pattern(dir, pattern)
        } else {
            r == Ok::<Vec<T>, BigError>(images)
        },
    }
}

/// Judges a search for what matches `pattern` below `dir`. `found` is what
/// the search gave, in order: the matches, or why the pattern cannot be
/// read.
pub fn judge_search<T>(dir: &str, pattern: &str, found: std::result::Result<Vec<T>, String>) -> (r:
    Result<Vec<T>>)
    ensures
        is_search_result(r, dir@, pattern@, found),
{
    match found {
        Err(cause) => Err(BigError::PptxError(chain("Invalid glob pattern: ", cause.as_str()))),
        Ok(images) => {
            if images.len() == 0 {
                Err(BigError::NoSlidesFoundError(chain3(dir, "/", pattern)))
            } else {
                Ok(images)
            }
        },
    }
}

/// The slide images that match `pattern` in `dir`, from what the search
/// gave: at least one, or an error.
pub fn find_slide_images(
    dir: &str,
    pattern: &str,
    found: std::result::Result<Vec<String>, String>,
) -> (r: Result<Vec<String>>)
    ensures
        is_search_result(r, dir@, pattern@, found),
{
    judge_search(dir, pattern, found)
}

/// Whether `r` is the presentation for what was found. The slides'
/// directory must be a directory, or it counts as not found. Then the
/// search must have given at least one image. The presentation is the list
/// of its parts, in the order in which they are written to the archive.
pub open spec fn is_package(
    r: Result<Vec<ArchiveEntry>>,
    slides_dir: Seq<char>,
    dir_kind: PathKind,
    found: std::result::Result<Vec<SlideImage>, String>,
    config: PptxConfig,
    created: Seq<char>,
) -> bool {
    if dir_kind != PathKind::Directory {
        r matches Err(BigError::PathNotFoundError(p)) && p@ == slides_dir
    } else {
        match found {
            Err(cause) => r matches Err(BigError::PptxError(d)) && d@
                == "Invalid glob pattern: "@ + cause@,
            Ok(images) => if images@.len() == 0 {
                r matches Err(BigError::NoSlidesFoundError(p)) && p@ == search_pattern(
                    slides_dir,
                    config.pattern@,
                )
            } else {
                r matches Ok(entries) && parts(entries@) == package_parts(
                    images@,
                    config,
                    created,
                )
            },
        }
    }
}

/// Builds the presentation from the slide images in `slides_dir`.
/// `dir_kind` is what stands at that directory; `found` is what the search
/// for `config.pattern` there gave, in order; `created` names the time of
/// creation.
pub fn generate_pptx(
    slides_dir: &str,
    dir_kind: PathKind,
    found: std::result::Result<Vec<SlideImage>, String>,
    config: &PptxConfig,
    created: &str,
) -> (r: Result<Vec<ArchiveEntry>>)
    ensures
        is_package(r, slides_dir@, dir_kind, found, *config, created@),
{
    match dir_kind {
        PathKind::Directory => {},
        _ => {
            return Err(BigError::PathNotFoundError(slides_dir.to_owned()));
        },
    }
    let images = match judge_search(slides_dir, config.pattern.as_str(), found) {
        Err(e) => {
            return Err(e);
        },
        Ok(images) => images,
    };
    let mut out: Vec<ArchiveEntry> = Vec::new();
    push_fixed_parts(&mut out, images.len(), config, created);
    let ghost fixed = parts(out@);
    let mut i: usize = 0;
    proof {
        assert(images@.take(0) =~= Seq::<SlideImage>::empty());
        assert(fixed =~= fixed_parts(images@.len(), *config, created@));
        assert(parts(out@) =~= fixed + all_slide_parts(images@.take(0), config.aspect_ratio@));
    }
    while i < images.len()
        invariant
            i <= images.len(),
            parts(out@) == fixed + all_slide_parts(images@.take(i as int), config.aspect_ratio@),
        decreases images.len() - i,
    {
        let ghost done = all_slide_parts(images@.take(i as int), config.aspect_ratio@);
        push_slide_parts(&mut out, &images[i], i + 1, config.aspect_ratio.as_str());
        proof {
            let next = images@.take(i as int + 1);
            assert(next.drop_last() =~= images@.take(i as int));
            assert(next.last() == images@[i as int]);
            assert(fixed + done + slide_parts(
                images@[i as int],
                (i + 1) as nat,
                config.aspect_ratio@,
            ) =~= fixed + all_slide_parts(next, config.aspect_ratio@));
        }
        i += 1;
    }
    proof {
        assert(images@.take(images.len() as int) =~= images@);
    }
    Ok(out)
}

/// Builds the presentation as `generate_pptx` does, created `now` seconds
/// after the start of 1970. `None` where that time has no text.
pub fn generate_pptx_at(
    slides_dir: &str,
    dir_kind: PathKind,
    found: std::result::Result<Vec<SlideImage>, String>,
    config: &PptxConfig,
    now: i64,
) -> (r: Option<Result<Vec<ArchiveEntry>>>)
    ensures
        match timestamp_text(now, TIMESTAMP_FORMAT@) {
            Some(created) => r matches Some(p) && is_package(
                p,
                slides_dir@,
                dir_kind,
                found,
                *config,
                created,
            ),
            None => r is None,
        },
{
    match timestamp(now, TIMESTAMP_FORMAT) {
        Some(created) => Some(generate_pptx(slides_dir, dir_kind, found, config, created.as_str())),
        None => None,
    }
}

} // verus!
