//! Settings of the whole program and the defaults they fall back to.

use crate::pptx::PptxConfig;
use crate::render::RenderConfig;
use crate::text::{
    lowercase, opt_text, parse_u64, parsed_u64, str_equal, to_chars, to_lowercase,
};
use vstd::prelude::*;

verus! {

/// Settings of the whole program.
pub struct Config {
    pub browser_path: Option<String>,
    pub html_template_path: Option<String>,
    pub default_timeout_ms: u64,
    pub embed_resources: bool,
    pub default_css: String,
    pub default_js: String,
}

/// Where the default stylesheet lives.
pub open spec fn default_css_url() -> Seq<char> {
    "https://raw.githubusercontent.com/harperreed/big/gh-pages/big.css"@
}

/// Where the default script lives.
pub open spec fn default_js_url() -> Seq<char> {
    "https://raw.githubusercontent.com/harperreed/big/gh-pages/big.js"@
}

/// The timeout that a setting asks for: the number it denotes, or half a
/// minute where it is absent or denotes none.
pub open spec fn timeout_from(setting: Option<Seq<char>>) -> u64 {
    match setting {
        Some(s) => match parsed_u64(s) {
            Some(n) => n,
            None => 30000,
        },
        None => 30000,
    }
}

/// Whether a word in lower case is none of the words in `off`; an absent
/// word counts as none of them.
pub open spec fn is_on(word: Option<Seq<char>>, off: Seq<char>) -> bool {
    match word {
        Some(w) => w != off,
        None => true,
    }
}

/// Whether a setting asks to embed resources: it does unless it reads
/// `false` in any mix of upper and lower case.
pub open spec fn embed_from(setting: Option<Seq<char>>) -> bool {
    is_on(
        match setting {
            Some(s) => Some(lowercase(s)),
            None => None,
        },
        "false"@,
    )
}

/// Whether a word in lower case differs from `off`; an absent word does.
pub fn switched_on(word: &Option<String>, off: &str) -> (r: bool)
    ensures
        r == is_on(opt_text(*word), off@),
{
    match word {
        Some(w) => !str_equal(w.as_str(), off),
        None => true,
    }
}

/// A copy of an optional string.
pub fn clone_opt(s: &Option<String>) -> (r: Option<String>)
    ensures
        r == *s,
{
    match s {
        Some(t) => Some(t.clone()),
        None => None,
    }
}

impl Default for Config {
    /// The settings used when nothing is configured: no browser path.
    fn default() -> (c: Config)
        ensures
            c.browser_path is None,
            c.html_template_path is None,
            c.default_timeout_ms == 30000,
            c.embed_resources,
            c.default_css@ == default_css_url(),
            c.default_js@ == default_js_url(),
    {
        Config::new(None)
    }
}

impl Config {
    /// The default settings, with the browser at `browser_path`.
    pub fn new(browser_path: Option<String>) -> (c: Config)
        ensures
            c.browser_path == browser_path,
            c.html_template_path is None,
            c.default_timeout_ms == 30000,
            c.embed_resources,
            c.default_css@ == default_css_url(),
            c.default_js@ == default_js_url(),
    {
        Config {
            browser_path,
            html_template_path: None,
            default_timeout_ms: 30000,
            embed_resources: true,
            default_css: "https://raw.githubusercontent.com/harperreed/big/gh-pages/big.css".to_owned(),
            default_js: "https://raw.githubusercontent.com/harperreed/big/gh-pages/big.js".to_owned(),
        }
    }

    /// The settings that the environment asks for. Each argument is the value
    /// of one variable, `None` where it is not set: `BROWSER_PATH`,
    /// `HTML_TEMPLATE_PATH`, `DEFAULT_TIMEOUT_MS`, `EMBED_RESOURCES`,
    /// `DEFAULT_CSS` and `DEFAULT_JS`.
    pub fn from_env(
        browser_path: Option<String>,
        html_template_path: Option<String>,
        default_timeout_ms: Option<String>,
        embed_resources: Option<String>,
        default_css: Option<String>,
        default_js: Option<String>,
    ) -> (c: Config)
        ensures
            c.browser_path == browser_path,
            c.html_template_path == html_template_path,
            c.default_timeout_ms == timeout_from(opt_text(default_timeout_ms)),
            c.embed_resources == embed_from(opt_text(embed_resources)),
            c.default_css@ == match default_css {
                Some(s) => s@,
                None => default_css_url(),
            },
            c.default_js@ == match default_js {
                Some(s) => s@,
                None => default_js_url(),
            },
    {
        let timeout: u64 = match &default_timeout_ms {
            Some(s) => {
                let digits = to_chars(s.as_str());
                match parse_u64(&digits) {
                    Some(n) => n,
                    None => 30000,
                }
            },
            None => 30000,
        };
        let lowered: Option<String> = match &embed_resources {
            Some(s) => Some(to_lowercase(s.as_str())),
            None => None,
        };
        let embed: bool = switched_on(&lowered, "false");
        let css: String = match default_css {
            Some(s) => s,
            None => "https://raw.githubusercontent.com/harperreed/big/gh-pages/big.css".to_owned(),
        };
        let js: String = match default_js {
            Some(s) => s,
            None => "https://raw.githubusercontent.com/harperreed/big/gh-pages/big.js".to_owned(),
        };
        Config {
            browser_path,
            html_template_path,
            default_timeout_ms: timeout,
            embed_resources: embed,
            default_css: css,
            default_js: js,
        }
    }

    /// The capture settings: each given value, and for each missing one the
    /// default (1280 by 720, `png`, `slide`, this configuration's timeout).
    /// The browser path is always this configuration's.
    pub fn get_render_config(
        &self,
        width: Option<u32>,
        height: Option<u32>,
        format: Option<String>,
        base_name: Option<String>,
        timeout_ms: Option<u64>,
    ) -> (r: RenderConfig)
        ensures
            r.width == width.unwrap_or(1280),
            r.height == height.unwrap_or(720),
            r.format@ == match format {
                Some(f) => f@,
                None => "png"@,
            },
            r.base_name@ == match base_name {
                Some(b) => b@,
                None => "slide"@,
            },
            r.timeout_ms == timeout_ms.unwrap_or(self.default_timeout_ms),
            r.browser_path == self.browser_path,
    {
        RenderConfig {
            width: match width {
                Some(w) => w,
                None => 1280,
            },
            height: match height {
                Some(h) => h,
                None => 720,
            },
            format: match format {
                Some(f) => f,
                None => "png".to_owned(),
            },
            base_name: match base_name {
                Some(b) => b,
                None => "slide".to_owned(),
            },
            timeout_ms: match timeout_ms {
                Some(t) => t,
                None => self.default_timeout_ms,
            },
            browser_path: clone_opt(&self.browser_path),
        }
    }

    /// The packaging settings: each given value, and for each missing one the
    /// default (`Presentation`, `*.png`, `16:9`).
    pub fn get_pptx_config(
        &self,
        title: Option<String>,
        pattern: Option<String>,
        aspect_ratio: Option<String>,
    ) -> (r: PptxConfig)
        ensures
            r.title@ == match title {
                Some(t) => t@,
                None => "Presentation"@,
            },
            r.pattern@ == match pattern {
                Some(p) => p@,
                None => "*.png"@,
            },
            r.aspect_ratio@ == match aspect_ratio {
                Some(a) => a@,
                None => "16:9"@,
            },
    {
        PptxConfig {
            title: match title {
                Some(t) => t,
                None => "Presentation".to_owned(),
            },
            pattern: match pattern {
                Some(p) => p,
                None => "*.png".to_owned(),
            },
            aspect_ratio: match aspect_ratio {
                Some(a) => a,
                None => "16:9".to_owned(),
            },
        }
    }
}

/// Whether a mode asks to embed resources: every mode does but `link`, in
/// any mix of upper and lower case.
pub open spec fn mode_embeds(mode: Seq<char>) -> bool {
    is_on(Some(lowercase(mode)), "link"@)
}

/// Whether `mode` asks to embed resources rather than link them.
pub fn embeds(mode: &str) -> (r: bool)
    ensures
        r == mode_embeds(mode@),
{
    switched_on(&Some(to_lowercase(mode)), "link")
}

/// The paths of the resources to include: those given, if any are; else the
/// default alone.
pub fn resource_paths(given: Option<Vec<String>>, default: &str) -> (r: Vec<String>)
    ensures
        match given {
            Some(files) if files@.len() > 0 => r == files,
            _ => r@.len() == 1 && r@[0]@ == default@,
        },
{
    match given {
        Some(files) => {
            if files.len() > 0 {
                files
            } else {
                let mut r: Vec<String> = Vec::new();
                r.push(default.to_owned());
                r
            }
        },
        None => {
            let mut r: Vec<String> = Vec::new();
            r.push(default.to_owned());
            r
        },
    }
}

} // verus!
