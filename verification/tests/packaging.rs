use big_slides::errors::BigError;
use big_slides::pptx::{
    app_properties, content_types, core_properties, find_slide_images, generate_pptx,
    generate_pptx_at, image_name, image_name_for, presentation, presentation_rels,
    push_image_parts, slide, slide_size,
    slide_size_name, ArchiveEntry, Payload, PptxConfig, SlideImage, TIMESTAMP_FORMAT,
};
use big_slides::utils::PathKind;

fn png(red: u8, blue: u8) -> Vec<u8> {
    let img = image::ImageBuffer::from_fn(100, 100, |_, _| image::Rgb([red, 0u8, blue]));
    let mut bytes = std::io::Cursor::new(Vec::new());
    img.write_to(&mut bytes, image::ImageOutputFormat::Png).expect("Failed to encode image");
    bytes.into_inner()
}

fn config() -> PptxConfig {
    PptxConfig {
        title: "Test Presentation".to_string(),
        pattern: "slide_*.png".to_string(),
        aspect_ratio: "16:9".to_string(),
    }
}

fn names(entries: &[ArchiveEntry]) -> Vec<&str> {
    entries.iter().map(|e| e.name.as_str()).collect()
}

fn text_of<'a>(entries: &'a [ArchiveEntry], name: &str) -> &'a str {
    match &entries.iter().find(|e| e.name == name).expect("part is missing").payload {
        Payload::Text(t) => t,
        Payload::Bytes(_) => panic!("part holds bytes"),
    }
}

#[test]
fn test_generate_pptx_basic() {
    let red = png(255, 0);
    let blue = png(0, 255);
    let found = Ok(vec![
        SlideImage { path: "/tmp/deck/slide_0001.png".to_string(), data: Some(red.clone()) },
        SlideImage { path: "/tmp/deck/slide_0002.png".to_string(), data: Some(blue.clone()) },
    ]);

    let result =
        generate_pptx("/tmp/deck", PathKind::Directory, found, &config(), "2024-01-02T03:04:05Z");

    assert!(result.is_ok(), "Failed to generate PPTX: {:?}", result.err());
    let entries = result.unwrap();
    assert_eq!(
        names(&entries),
        vec![
            "[Content_Types].xml",
            "_rels/.rels",
            "docProps/app.xml",
            "docProps/core.xml",
            "ppt/_rels/presentation.xml.rels",
            "ppt/presentation.xml",
            "ppt/slideMasters/slideMaster1.xml",
            "ppt/slideMasters/_rels/slideMaster1.xml.rels",
            "ppt/slideLayouts/slideLayout1.xml",
            "ppt/slideLayouts/_rels/slideLayout1.xml.rels",
            "ppt/media/image1.png",
            "ppt/slides/_rels/slide1.xml.rels",
            "ppt/slides/slide1.xml",
            "ppt/media/image2.png",
            "ppt/slides/_rels/slide2.xml.rels",
            "ppt/slides/slide2.xml",
        ]
    );
    assert_eq!(entries[10].payload, Payload::Bytes(red));
    assert_eq!(entries[13].payload, Payload::Bytes(blue));
    assert!(text_of(&entries, "docProps/core.xml").contains("<dc:title>Test Presentation</dc:title>"));
    assert!(text_of(&entries, "docProps/core.xml")
        .contains("<dcterms:created xsi:type=\"dcterms:W3CDTF\">2024-01-02T03:04:05Z</dcterms:created>"));
    assert!(text_of(&entries, "ppt/slides/_rels/slide2.xml.rels").contains("Target=\"../media/image2.png\""));
    assert!(text_of(&entries, "ppt/slides/slide2.xml").contains("<p:cSld name=\"Slide 2\">"));
}

#[test]
fn an_image_that_does_not_decode_has_no_slide() {
    let found = Ok(vec![
        SlideImage { path: "a.png".to_string(), data: Some(b"not an image".to_vec()) },
        SlideImage { path: "b.png".to_string(), data: Some(png(1, 2)) },
    ]);
    let entries =
        generate_pptx("d", PathKind::Directory, found, &config(), "t").unwrap();
    assert_eq!(
        names(&entries)[10..],
        [
            "ppt/media/image1.png",
            "ppt/slides/_rels/slide1.xml.rels",
            "ppt/media/image2.png",
            "ppt/slides/_rels/slide2.xml.rels",
            "ppt/slides/slide2.xml",
        ]
    );
}

#[test]
fn the_format_of_an_image_is_read_off_its_path() {
    let found = Ok(vec![
        SlideImage { path: "a.jpg".to_string(), data: Some(png(1, 2)) },
        SlideImage { path: "b".to_string(), data: Some(png(1, 2)) },
    ]);
    let entries = generate_pptx("d", PathKind::Directory, found, &config(), "t").unwrap();
    assert_eq!(
        names(&entries)[10..],
        [
            "ppt/media/image1.jpg",
            "ppt/slides/_rels/slide1.xml.rels",
            "ppt/media/image2.",
            "ppt/slides/_rels/slide2.xml.rels",
        ]
    );
}

#[test]
fn an_image_that_cannot_be_read_has_no_parts_but_keeps_its_number() {
    let found = Ok(vec![
        SlideImage { path: "a.png".to_string(), data: None },
        SlideImage { path: "b.png".to_string(), data: Some(png(1, 2)) },
    ]);
    let entries = generate_pptx("d", PathKind::Directory, found, &config(), "t").unwrap();
    assert_eq!(
        names(&entries)[10..],
        ["ppt/media/image2.png", "ppt/slides/_rels/slide2.xml.rels", "ppt/slides/slide2.xml"]
    );
    assert!(text_of(&entries, "docProps/app.xml").contains("<Slides>2</Slides>"));
}

#[test]
fn packaging_errors() {
    let one = || Ok(vec![SlideImage { path: "a.png".to_string(), data: None }]);
    for kind in [PathKind::Missing, PathKind::File, PathKind::Other] {
        assert_eq!(
            generate_pptx("deck", kind, one(), &config(), "t"),
            Err(BigError::PathNotFoundError("deck".to_string()))
        );
    }
    assert_eq!(
        generate_pptx("deck", PathKind::Directory, Ok(vec![]), &config(), "t"),
        Err(BigError::NoSlidesFoundError("deck/slide_*.png".to_string()))
    );
    assert_eq!(
        generate_pptx("deck", PathKind::Directory, Err("bad bracket".to_string()), &config(), "t"),
        Err(BigError::PptxError("Invalid glob pattern: bad bracket".to_string()))
    );
    assert_eq!(
        generate_pptx("deck", PathKind::Missing, Err("bad".to_string()), &config(), "t"),
        Err(BigError::PathNotFoundError("deck".to_string()))
    );
}

#[test]
fn the_time_of_creation_is_written_in_utc() {
    let one = || Ok(vec![SlideImage { path: "a.png".to_string(), data: None }]);
    let at = |now: i64| {
        let entries =
            generate_pptx_at("d", PathKind::Directory, one(), &config(), now).unwrap().unwrap();
        text_of(&entries, "docProps/core.xml").to_string()
    };
    assert_eq!(TIMESTAMP_FORMAT, "%Y-%m-%dT%H:%M:%SZ");
    assert!(at(0).contains(">1970-01-01T00:00:00Z<"));
    assert!(at(1_704_164_645).contains(">2024-01-02T03:04:05Z<"));
    assert!(at(-1).contains(">1969-12-31T23:59:59Z<"));
    assert_eq!(generate_pptx_at("d", PathKind::Directory, one(), &config(), i64::MAX), None);
    assert_eq!(
        generate_pptx_at("d", PathKind::Missing, one(), &config(), 0),
        Some(Err(BigError::PathNotFoundError("d".to_string())))
    );
}

#[test]
fn slide_images_must_be_found() {
    assert_eq!(
        find_slide_images("out", "*.png", Ok(vec!["out/a.png".to_string()])),
        Ok(vec!["out/a.png".to_string()])
    );
    assert_eq!(
        find_slide_images("out", "*.png", Ok(vec![])),
        Err(BigError::NoSlidesFoundError("out/*.png".to_string()))
    );
    assert_eq!(
        find_slide_images("out", "[", Err("invalid range pattern".to_string())),
        Err(BigError::PptxError("Invalid glob pattern: invalid range pattern".to_string()))
    );
}

#[test]
fn slide_sizes() {
    assert_eq!(slide_size("16:9"), (9144000, 5143500));
    assert_eq!(slide_size("4:3"), (9144000, 6858000));
    assert_eq!(slide_size("1:1"), (9144000, 5143500));
    assert_eq!(slide_size(""), (9144000, 5143500));
    assert_eq!(slide_size_name("16:9"), "screen16x9");
    assert_eq!(slide_size_name("4:3"), "screen4x3");
    assert_eq!(slide_size_name("3:4"), "screen16x9");
}

#[test]
fn image_names() {
    assert_eq!(image_name(1, "out/slide_0001.png"), "image1.png");
    assert_eq!(image_name(12, "out/slide.final.JPG"), "image12.JPG");
    assert_eq!(image_name(3, "out/noext"), "image3.");
}

#[test]
fn content_types_list_every_slide() {
    let text = content_types(2);
    assert!(text.starts_with("<?xml version=\"1.0\" encoding=\"UTF-8\" standalone=\"yes\"?>\n<Types xmlns="));
    assert!(text.contains(
        "<Override PartName=\"/docProps/app.xml\" ContentType=\"application/vnd.openxmlformats-officedocument.extended-properties+xml\"/>\n    \
<Override PartName=\"/ppt/slides/slide1.xml\" ContentType=\"application/vnd.openxmlformats-officedocument.presentationml.slide+xml\"/>\n\
<Override PartName=\"/ppt/slides/slide2.xml\" ContentType=\"application/vnd.openxmlformats-officedocument.presentationml.slide+xml\"/>\n</Types>"
    ));
    assert!(content_types(0).ends_with("extended-properties+xml\"/>\n    \n</Types>"));
}

#[test]
fn application_properties_count_the_slides() {
    assert_eq!(
        app_properties(12),
        "<?xml version=\"1.0\" encoding=\"UTF-8\" standalone=\"yes\"?>\n\
<Properties xmlns=\"http://schemas.openxmlformats.org/officeDocument/2006/extended-properties\" xmlns:vt=\"http://schemas.openxmlformats.org/officeDocument/2006/docPropsVTypes\">\n    \
<Application>big-slides</Application>\n    <Slides>12</Slides>\n</Properties>"
    );
}

#[test]
fn core_properties_hold_title_and_time() {
    let text = core_properties("My <Deck>", "2024-01-02T03:04:05Z");
    assert!(text.contains("    <dc:title>My <Deck></dc:title>\n    <dc:creator>big-slides</dc:creator>\n"));
    assert!(text.ends_with(
        "<dcterms:created xsi:type=\"dcterms:W3CDTF\">2024-01-02T03:04:05Z</dcterms:created>\n    <cp:revision>1</cp:revision>\n</cp:coreProperties>"
    ));
}

#[test]
fn presentation_relationships() {
    assert_eq!(
        presentation_rels(2),
        "<?xml version=\"1.0\" encoding=\"UTF-8\" standalone=\"yes\"?>\n\
<Relationships xmlns=\"http://schemas.openxmlformats.org/package/2006/relationships\">\n    \
<Relationship Id=\"rIdSM\" Type=\"http://schemas.openxmlformats.org/officeDocument/2006/relationships/slideMaster\" Target=\"slideMasters/slideMaster1.xml\"/>\n    \
<Relationship Id=\"rId1\" Type=\"http://schemas.openxmlformats.org/officeDocument/2006/relationships/slide\" Target=\"slides/slide1.xml\"/>\n    \
<Relationship Id=\"rId2\" Type=\"http://schemas.openxmlformats.org/officeDocument/2006/relationships/slide\" Target=\"slides/slide2.xml\"/>\n\
</Relationships>"
    );
}

#[test]
fn presentation_lists_slides_and_size() {
    let text = presentation(3, "4:3");
    assert!(text.contains(
        "    <p:sldIdLst>\n        <p:sldId id=\"256\" r:id=\"rId1\"/>\n        <p:sldId id=\"257\" r:id=\"rId2\"/>\n        <p:sldId id=\"258\" r:id=\"rId3\"/>\n    </p:sldIdLst>\n    \
<p:sldSz cx=\"9144000\" cy=\"6858000\" type=\"screen4x3\"/>\n    <p:notesSz cx=\"6858000\" cy=\"9144000\"/>"
    ));
    assert!(presentation(1, "16:9").contains("<p:sldSz cx=\"9144000\" cy=\"5143500\" type=\"screen16x9\"/>"));
    assert!(presentation(0, "16:9").contains("<p:sldIdLst>\n\n    </p:sldIdLst>"));
}

#[test]
fn a_slide_holds_one_picture() {
    let text = slide(7, "16:9");
    assert!(text.contains("<p:cSld name=\"Slide 7\">"));
    assert!(text.contains("<p:cNvPr id=\"2\" name=\"Slide Image 7\"/>"));
    assert!(text.contains("<a:ext uri=\"{28A0092B-C50C-407E-A947-70E740481C1C}\">"));
    assert!(text.contains("<a:ext cx=\"9144000\" cy=\"5143500\"/>"));
    assert!(text.ends_with("</p:sld>"));
}

#[test]
fn image_names_by_extension() {
    assert_eq!(image_name_for(1, &Some("png".to_string())), "image1.png");
    assert_eq!(image_name_for(10, &None), "image10.");
    assert_eq!(image_name_for(0, &Some("".to_string())), "image0.");
}

#[test]
fn parts_of_an_image() {
    let mut entries = vec![];
    push_image_parts(&mut entries, &vec![1, 2, 3], "image4.png", true, 4, "4:3");
    assert_eq!(
        names(&entries),
        vec!["ppt/media/image4.png", "ppt/slides/_rels/slide4.xml.rels", "ppt/slides/slide4.xml"]
    );
    assert_eq!(entries[0].payload, Payload::Bytes(vec![1, 2, 3]));
    assert_eq!(
        entries[1].payload,
        Payload::Text(
            "<?xml version=\"1.0\" encoding=\"UTF-8\" standalone=\"yes\"?>\n\
<Relationships xmlns=\"http://schemas.openxmlformats.org/package/2006/relationships\">\n    \
<Relationship Id=\"rId1\" Type=\"http://schemas.openxmlformats.org/officeDocument/2006/relationships/image\" Target=\"../media/image4.png\"/>\n    \
<Relationship Id=\"rId2\" Type=\"http://schemas.openxmlformats.org/officeDocument/2006/relationships/slideLayout\" Target=\"../slideLayouts/slideLayout1.xml\"/>\n\
</Relationships>"
                .to_string()
        )
    );
    assert_eq!(entries[2].payload, Payload::Text(slide(4, "4:3")));
    let mut unsound = vec![];
    push_image_parts(&mut unsound, &vec![], "image1.", false, 1, "16:9");
    assert_eq!(names(&unsound), vec!["ppt/media/image1.", "ppt/slides/_rels/slide1.xml.rels"]);
}
