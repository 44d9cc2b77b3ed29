//! Settings and rules for capturing one image per slide.

use crate::errors::{BigError, Result};
use crate::text::{
    append_str, chain, copy_range, decimal, from_chars, lowercase, parse_u64, parsed_u64,
    opt_text, push_decimal, push_zero_padded, str_equal, strings, to_chars, to_lowercase,
    zero_padded,
};
use vstd::prelude::*;

verus! {

/// How slides are captured.
pub struct RenderConfig {
    pub width: u32,
    pub height: u32,
    pub format: String,
    pub base_name: String,
    pub timeout_ms: u64,
    pub browser_path: Option<String>,
}

impl Default for RenderConfig {
    /// Full-HD PNG images named `slide`, with half a minute for the browser
    /// and no browser path.
    fn default() -> (r: RenderConfig)
        ensures
            r.width == 1920,
            r.height == 1080,
            r.format@ == "png"@,
            r.base_name@ == "slide"@,
            r.timeout_ms == 30000,
            r.browser_path is None,
    {
        RenderConfig {
            width: 1920,
            height: 1080,
            format: "png".to_owned(),
            base_name: "slide".to_owned(),
            timeout_ms: 30000,
            browser_path: None,
        }
    }
}

/// The script that prepares the slides for navigation: it shows the first
/// slide only and, where the page brings none, installs an object that
/// moves between slides.
pub const PREPARE_SCRIPT: &'static str = "\n        // Prepare slides for navigation and screenshots\n        var slides = document.querySelectorAll('body > div');\n\n        // Initialize the navigation globals if not already done by Big.js\n        if (!window.big) {\n            window.big = {\n                current: 0,\n                forward: function() {\n                    if (this.current < slides.length - 1) {\n                        this.current++;\n                        this.updateDisplay();\n                    }\n                },\n                reverse: function() {\n                    if (this.current > 0) {\n                        this.current--;\n                        this.updateDisplay();\n                    }\n                },\n                go: function(n) {\n                    this.current = Math.min(slides.length - 1, Math.max(0, n));\n                    this.updateDisplay();\n                },\n                updateDisplay: function() {\n                    for (var i = 0; i < slides.length; i++) {\n                        slides[i].style.display = 'none';\n                    }\n                    if (slides[this.current]) {\n                        slides[this.current].style.display = 'inline';\n                    }\n                }\n            };\n\n            // Show only the first slide initially\n            window.big.updateDisplay();\n        }\n\n        // Return number of slides\n        slides.length;\n    ";

/// The script that shows a slide, up to the first place of its index.
pub const NAVIGATE_OPENING: &'static str = "\n                // Set the slide directly with our enhanced big object\n                if (window.big && typeof window.big.go === 'function') {\n                    window.big.go(";

/// The script that shows a slide, between the first and second place of its
/// index.
pub const NAVIGATE_TO_LIMIT: &'static str = ");\n                    true;\n                } else {\n                    // Fallback for any unexpected scenario\n                    var slides = document.querySelectorAll('body > div');\n                    for (var i = 0; i < slides.length; i++) {\n                        slides[i].style.display = 'none';\n                    }\n                    if (";

/// The script that shows a slide, between the second and third place of its
/// index.
pub const NAVIGATE_TO_INDEX: &'static str = " < slides.length) {\n                        slides[";

/// The script that shows a slide, after the last place of its index.
pub const NAVIGATE_CLOSING: &'static str = "].style.display = 'inline';\n                        true;\n                    } else {\n                        false;\n                    }\n                }\n            ";

/// The script that settles the page on one slide, up to its index.
pub const STABILIZE_OPENING: &'static str = "\n            // Final visibility check\n            var slides = document.querySelectorAll('body > div');\n            for (var i = 0; i < slides.length; i++) {\n                slides[i].style.display = i === ";

/// The script that settles the page on one slide, after its index.
pub const STABILIZE_CLOSING: &'static str = " ? 'inline' : 'none';\n            }\n            // Force any pending transitions or animations to complete\n            window.getComputedStyle(document.body).opacity;\n            true;\n            ";

/// The script that counts the slides of the page.
pub const COUNT_SCRIPT: &'static str = "document.querySelectorAll('body > div').length";

/// The number of slides that is assumed where the page does not tell.
pub const FALLBACK_SLIDE_COUNT: u64 = 15;

/// The format of a captured image.
#[derive(Debug, Clone, Copy, PartialEq, Eq, Structural)]
pub enum ImageKind {
    Png,
    Jpeg,
}

/// The format that a name in lower case stands for: JPEG for `jpeg` and
/// `jpg`, and PNG for everything else.
pub open spec fn image_kind_named(name: Seq<char>) -> ImageKind {
    if name == "png"@ {
        ImageKind::Png
    } else if name == "jpeg"@ || name == "jpg"@ {
        ImageKind::Jpeg
    } else {
        ImageKind::Png
    }
}

/// The format in which slides are captured: JPEG where `jpeg` or `jpg` is
/// asked for, in any mix of upper and lower case, and PNG otherwise.
pub open spec fn image_kind_of(format: Seq<char>) -> ImageKind {
    image_kind_named(lowercase(format))
}

/// The format that a name in lower case stands for.
pub fn image_kind(name: &str) -> (k: ImageKind)
    ensures
        k == image_kind_named(name@),
{
    if str_equal(name, "png") {
        ImageKind::Png
    } else if str_equal(name, "jpeg") || str_equal(name, "jpg") {
        ImageKind::Jpeg
    } else {
        ImageKind::Png
    }
}

/// The format in which slides are captured.
pub fn screenshot_format(format: &str) -> (k: ImageKind)
    ensures
        k == image_kind_of(format@),
{
    image_kind(to_lowercase(format).as_str())
}

/// The name of the image of slide `number`: the base name, an underscore,
/// the number with at least four digits, a dot and the format.
pub open spec fn slide_file_name_of(base_name: Seq<char>, number: nat, format: Seq<char>) -> Seq<
    char,
> {
    base_name + "_"@ + zero_padded(number, 4) + "."@ + format
}

/// The name of the image of slide `number`.
pub fn slide_file_name(base_name: &str, number: u64, format: &str) -> (r: String)
    ensures
        r@ == slide_file_name_of(base_name@, number as nat, format@),
{
    let mut out = to_chars(base_name);
    append_str(&mut out, "_");
    push_zero_padded(&mut out, number as u128, 4);
    append_str(&mut out, ".");
    append_str(&mut out, format);
    from_chars(&out)
}

/// Whether `c` is a double quote or a space.
pub open spec fn is_quote_or_space(c: char) -> bool {
    c == '"' || c == ' '
}

/// `s` without the double quotes and spaces at its start.
pub open spec fn unquoted_start(s: Seq<char>) -> Seq<char>
    decreases s.len(),
{
    if s.len() > 0 && is_quote_or_space(s[0]) {
        unquoted_start(s.drop_first())
    } else {
        s
    }
}

/// `s` without the double quotes and spaces at its end.
pub open spec fn unquoted_end(s: Seq<char>) -> Seq<char>
    decreases s.len(),
{
    if s.len() > 0 && is_quote_or_space(s.last()) {
        unquoted_end(s.drop_last())
    } else {
        s
    }
}

/// `s` without the double quotes and spaces around it.
pub open spec fn unquoted(s: Seq<char>) -> Seq<char> {
    unquoted_end(unquoted_start(s))
}

/// The text of `v` without the double quotes and spaces around it.
pub fn unquote(v: &Vec<char>) -> (r: Vec<char>)
    ensures
        r@ == unquoted(v@),
{
    let mut i: usize = 0;
    proof {
        assert(v@.skip(0) =~= v@);
    }
    while i < v.len() && (v[i] == '"' || v[i] == ' ')
        invariant
            i <= v.len(),
            unquoted_start(v@) == unquoted_start(v@.skip(i as int)),
        decreases v.len() - i,
    {
        proof {
            assert(v@.skip(i as int).drop_first() =~= v@.skip(i as int + 1));
        }
        i += 1;
    }
    let mut j: usize = v.len();
    proof {
        assert(v@.skip(i as int) =~= v@.subrange(i as int, j as int));
    }
    while j > i && (v[j - 1] == '"' || v[j - 1] == ' ')
        invariant
            i <= j <= v.len(),
            unquoted(v@) == unquoted_end(v@.subrange(i as int, j as int)),
        decreases j,
    {
        proof {
            assert(v@.subrange(i as int, j as int).drop_last() =~= v@.subrange(
                i as int,
                j as int - 1,
            ));
        }
        j -= 1;
    }
    copy_range(v, i, j)
}

/// The number of slides to capture, from what counting them in the page
/// gave: that number where the answer, without quotes and spaces around
/// it, is a positive integer of at most 63 bits; fifteen where it is
/// anything else, or where counting failed.
pub open spec fn slide_count_of(answer: Option<Seq<char>>) -> u64 {
    match answer {
        Some(text) => match parsed_u64(unquoted(text)) {
            Some(n) if 0 < n <= i64::MAX => n,
            _ => FALLBACK_SLIDE_COUNT,
        },
        None => FALLBACK_SLIDE_COUNT,
    }
}

/// The number of slides to capture. `answer` is what counting the slides in
/// the page gave, `None` where counting failed.
pub fn slide_count(answer: &Option<String>) -> (n: u64)
    ensures
        n == slide_count_of(opt_text(*answer)),
        0 < n <= i64::MAX,
{
    match answer {
        Some(text) => {
            let chars = to_chars(text.as_str());
            match parse_u64(&unquote(&chars)) {
                Some(n) => {
                    if 0 < n && n <= 0x7fff_ffff_ffff_ffff {
                        n
                    } else {
                        FALLBACK_SLIDE_COUNT
                    }
                },
                None => FALLBACK_SLIDE_COUNT,
            }
        },
        None => FALLBACK_SLIDE_COUNT,
    }
}

/// The script that shows the slide with this index, counted from 0.
pub open spec fn navigation_script_of(index: nat) -> Seq<char> {
    NAVIGATE_OPENING@ + decimal(index) + NAVIGATE_TO_LIMIT@ + decimal(index) + NAVIGATE_TO_INDEX@
        + decimal(index) + NAVIGATE_CLOSING@
}

/// The script that shows the slide with this index, counted from 0.
pub fn navigation_script(index: u64) -> (r: String)
    ensures
        r@ == navigation_script_of(index as nat),
{
    let mut out = to_chars(NAVIGATE_OPENING);
    push_decimal(&mut out, index as u128);
    append_str(&mut out, NAVIGATE_TO_LIMIT);
    push_decimal(&mut out, index as u128);
    append_str(&mut out, NAVIGATE_TO_INDEX);
    push_decimal(&mut out, index as u128);
    append_str(&mut out, NAVIGATE_CLOSING);
    from_chars(&out)
}

/// The script that settles the page on the slide with this index.
pub open spec fn stabilize_script_of(index: nat) -> Seq<char> {
    STABILIZE_OPENING@ + decimal(index) + STABILIZE_CLOSING@
}

/// The script that settles the page on the slide with this index.
pub fn stabilize_script(index: u64) -> (r: String)
    ensures
        r@ == stabilize_script_of(index as nat),
{
    let mut out = to_chars(STABILIZE_OPENING);
    push_decimal(&mut out, index as u128);
    append_str(&mut out, STABILIZE_CLOSING);
    from_chars(&out)
}

/// What capturing one slide takes.
pub struct SlideStep {
    /// The name of the file that the capture is written to.
    pub file_name: String,
    /// The script to run after the capture to move on, unless this is the
    /// last slide.
    pub navigate: Option<String>,
    /// The script to run last, before the next capture.
    pub stabilize: String,
}

/// Whether `step` is what capturing the slide with this index, counted from
/// 0, takes: the capture goes to the file numbered one higher; then the
/// page moves to the next slide, if there is one, and settles on it.
pub open spec fn is_slide_step(step: SlideStep, config: RenderConfig, index: u64, count: u64)
    -> bool {
    &&& step.file_name@ == slide_file_name_of(
        config.base_name@,
        (index + 1) as nat,
        config.format@,
    )
    &&& if index + 1 < count {
        step.navigate matches Some(s) && s@ == navigation_script_of((index + 1) as nat)
    } else {
        step.navigate is None
    }
    &&& step.stabilize@ == stabilize_script_of((index + 1) as nat)
}

/// Plans the capture of the slide with this index, counted from 0, out of
/// `count` slides.
pub fn slide_step(config: &RenderConfig, index: u64, count: u64) -> (step: SlideStep)
    requires
        index < u64::MAX,
    ensures
        is_slide_step(step, *config, index, count),
{
    let next: u64 = index + 1;
    SlideStep {
        file_name: slide_file_name(config.base_name.as_str(), next, config.format.as_str()),
        navigate: if next < count {
            Some(navigation_script(next))
        } else {
            None
        },
        stabilize: stabilize_script(next),
    }
}

/// The browser to launch: the configured one, or else the one that the
/// environment names, unless it names none or an empty path.
pub open spec fn browser_path_of(configured: Option<String>, environment: Option<String>)
    -> Option<Seq<char>> {
    match configured {
        Some(p) => Some(p@),
        None => match environment {
            Some(p) if p@.len() > 0 => Some(p@),
            _ => None,
        },
    }
}

/// The browser to launch. `environment` is the value of `BROWSER_PATH`,
/// where it is set.
pub fn browser_path(config: &RenderConfig, environment: &Option<String>) -> (r: Option<String>)
    ensures
        match r {
            Some(p) => browser_path_of(config.browser_path, *environment) == Some(p@),
            None => browser_path_of(config.browser_path, *environment) is None,
        },
{
    match &config.browser_path {
        Some(p) => Some(p.clone()),
        None => match environment {
            Some(p) => {
                if p.as_str().unicode_len() > 0 {
                    Some(p.clone())
                } else {
                    None
                }
            },
            None => None,
        },
    }
}

/// The address under which the browser opens the document whose canonical
/// path is `canonical`.
pub fn page_url(canonical: &str) -> (r: String)
    ensures
        r@ == "file://"@ + canonical@,
{
    chain("file://", canonical)
}

/// The error for a failure of the browser: what failed, then the cause.
pub fn browser_failure(what: &str, cause: &str) -> (e: BigError)
    ensures
        e matches BigError::BrowserError { message } && message@ == what@ + cause@,
{
    BigError::BrowserError { message: chain(what, cause) }
}

/// How long the page is given to show the next slide, in milliseconds.
pub const NAVIGATION_WAIT_MS: u64 = 800;

/// How long the page is given to settle before the next capture, in
/// milliseconds.
pub const SETTLE_WAIT_MS: u64 = 300;

/// The names of the files written for the first `n` slides, in order: one
/// for each slide whose capture gave an image.
pub open spec fn captured_names(
    config: RenderConfig,
    shots: Seq<Option<Vec<u8>>>,
    n: nat,
) -> Seq<Seq<char>>
    decreases n,
{
    if n == 0 {
        Seq::empty()
    } else {
        let before = captured_names(config, shots, (n - 1) as nat);
        if n - 1 < shots.len() && shots[n - 1] is Some {
            before.push(slide_file_name_of(config.base_name@, n, config.format@))
        } else {
            before
        }
    }
}

/// Whether `shots` holds what `capture` gave, slide by slide.
pub open spec fn are_captures<C: Fn(ImageKind) -> Option<Vec<u8>>>(
    shots: Seq<Option<Vec<u8>>>,
    config: RenderConfig,
    capture: C,
) -> bool {
    forall|k: int|
        0 <= k < shots.len() ==> capture.ensures(
            (image_kind_of(config.format@),),
            #[trigger] shots[k],
        )
}

/// Whether `e` is the error of the write that failed for `image`, the
/// capture of the slide with this number.
pub open spec fn is_write_failure<W: Fn(String, Vec<u8>) -> std::result::Result<(), String>>(
    e: BigError,
    config: RenderConfig,
    number: nat,
    image: Vec<u8>,
    write: W,
) -> bool {
    match e {
        BigError::FileReadError(cause) => exists|name: String| #[trigger]
            write.ensures((name, image), Err(cause)) && name@ == slide_file_name_of(
                config.base_name@,
                number,
                config.format@,
            ),
        _ => false,
    }
}

/// A write that failed under the slide's name with this cause is a write
/// failure with the error that carries the cause.
pub proof fn lemma_write_failure<W: Fn(String, Vec<u8>) -> std::result::Result<(), String>>(
    config: RenderConfig,
    number: nat,
    image: Vec<u8>,
    write: W,
    name: String,
    cause: String,
)
    requires
        name@ == slide_file_name_of(config.base_name@, number, config.format@),
        write.ensures((name, image), Err(cause)),
    ensures
        is_write_failure(BigError::FileReadError(cause), config, number, image, write),
{
    let e = BigError::FileReadError(cause);
    assert(e matches BigError::FileReadError(c) && c == cause);
    assert(exists|n: String| #[trigger]
        write.ensures((n, image), Err(cause)) && n@ == slide_file_name_of(
            config.base_name@,
            number,
            config.format@,
        ));
    assert(is_write_failure(e, config, number, image, write) == (exists|n: String| #[trigger]
        write.ensures((n, image), Err(cause)) && n@ == slide_file_name_of(
            config.base_name@,
            number,
            config.format@,
        )));
}

/// Whether `r` is what capturing `count` slides came to, where `shots`
/// holds what `capture` gave for each slide that was reached. Where every
/// image could be written, all slides were reached, and `r` holds the names
/// of the files written, in order. Where `write` failed for an image, no
/// further slide was reached, and `r` is the error of that write.
pub open spec fn is_capture_result<W: Fn(String, Vec<u8>) -> std::result::Result<(), String>>(
    r: Result<Vec<String>>,
    config: RenderConfig,
    count: u64,
    write: W,
    shots: Seq<Option<Vec<u8>>>,
) -> bool {
    match r {
        Ok(files) => shots.len() == count && strings(files@) == captured_names(
            config,
            shots,
            count as nat,
        ),
        Err(e) => {
            &&& 1 <= shots.len() <= count
            &&& shots.last() matches Some(image) && is_write_failure(
                e,
                config,
                shots.len(),
                image,
                write,
            )
        },
    }
}

/// Captures the slides of the page, `count` of them. For each slide in
/// turn: `capture` takes the image, which `write` stores under the slide's
/// file name; a slide whose capture fails is passed over, but a capture
/// that cannot be written ends everything with the error. Then `evaluate`
/// runs the script that moves on to the next slide, if there is one, and the
/// script that settles the page, and `sleep` gives the page time after each.
pub fn capture_slides<C, W, E, S>(
    config: &RenderConfig,
    count: u64,
    capture: C,
    write: W,
    evaluate: E,
    sleep: S,
) -> (r: Result<Vec<String>>) where
    C: Fn(ImageKind) -> Option<Vec<u8>>,
    W: Fn(String, Vec<u8>) -> std::result::Result<(), String>,
    E: Fn(String) -> (),
    S: Fn(u64) -> (),

    requires
        forall|kind: ImageKind| capture.requires((kind,)),
        forall|name: String, data: Vec<u8>| write.requires((name, data)),
        forall|script: String| evaluate.requires((script,)),
        forall|ms: u64| sleep.requires((ms,)),
    ensures
        exists|shots: Seq<Option<Vec<u8>>>|
            are_captures(shots, *config, capture) && is_capture_result(
                r,
                *config,
                count,
                write,
                shots,
            ),
{
    let kind = screenshot_format(config.format.as_str());
    let mut files: Vec<String> = Vec::new();
    let ghost mut shots: Seq<Option<Vec<u8>>> = Seq::empty();
    let mut index: u64 = 0;
    while index < count
        invariant
            index <= count,
            shots.len() == index,
            kind == image_kind_of(config.format@),
            strings(files@) == captured_names(*config, shots, index as nat),
            forall|k: int| 0 <= k < shots.len() ==> capture.ensures((kind,), #[trigger] shots[k]),
            forall|kind: ImageKind| capture.requires((kind,)),
            forall|name: String, data: Vec<u8>| write.requires((name, data)),
            forall|script: String| evaluate.requires((script,)),
            forall|ms: u64| sleep.requires((ms,)),
        decreases count - index,
    {
        let step = slide_step(config, index, count);
        let ghost before = shots;
        let ghost written = strings(files@);
        let shot = capture(kind);
        proof {
            shots = shots.push(shot);
            assert forall|k: int| 0 <= k < shots.len() implies capture.ensures(
                (kind,),
                #[trigger] shots[k],
            ) by {
                if k < before.len() {
                    assert(shots[k] == before[k]);
                }
            }
            lemma_captured_names_prefix(*config, before, shots, index as nat);
        }
        match shot {
            Some(image) => {
                let name = step.file_name.clone();
                match write(name, image) {
                    Ok(_) => {
                        files.push(step.file_name);
                        proof {
                            assert(strings(files@) =~= written.push(
                                slide_file_name_of(
                                    config.base_name@,
                                    (index + 1) as nat,
                                    config.format@,
                                ),
                            ));
                        }
                    },
                    Err(cause) => {
                        let r = Err(BigError::FileReadError(cause));
                        proof {
                            assert(shots.last() == Some(image));
                            assert(name@ == slide_file_name_of(
                                config.base_name@,
                                shots.len(),
                                config.format@,
                            ));
                            lemma_write_failure(*config, shots.len(), image, write, name, cause);
                            assert(are_captures(shots, *config, capture));
                            assert(is_capture_result(r, *config, count, write, shots));
                        }
                        return r;
                    },
                }
            },
            None => {},
        }
        match step.navigate {
            Some(script) => {
                evaluate(script);
                sleep(NAVIGATION_WAIT_MS);
            },
            None => {},
        }
        evaluate(step.stabilize);
        sleep(SETTLE_WAIT_MS);
        index += 1;
    }
    let r = Ok(files);
    proof {
        assert(are_captures(shots, *config, capture));
        assert(is_capture_result(r, *config, count, write, shots));
    }
    r
}

/// The names written for the first slides depend on their own captures
/// only.
pub proof fn lemma_captured_names_prefix(
    config: RenderConfig,
    first: Seq<Option<Vec<u8>>>,
    second: Seq<Option<Vec<u8>>>,
    n: nat,
)
    requires
        n <= first.len(),
        n <= second.len(),
        forall|k: int| 0 <= k < n ==> first[k] == second[k],
    ensures
        captured_names(config, first, n) == captured_names(config, second, n),
    decreases n,
{
    if n > 0 {
        lemma_captured_names_prefix(config, first, second, (n - 1) as nat);
    }
}

} // verus!
