//! The error type shared by every stage.

use crate::text::chain;
use vstd::prelude::*;

verus! {

/// What can go wrong in a stage. Each variant but `BrowserNotFound` carries
/// the detail that its message ends with.
#[derive(Debug, Clone, PartialEq, Eq)]
pub enum BigError {
    FileReadError(String),
    FetchError(String),
    InvalidResourcePath(String),
    MarkdownError(String),
    HtmlError(String),
    BrowserError { message: String },
    ScreenshotError(String),
    PptxError(String),
    ValidationError(String),
    BrowserNotFound,
    PathNotFoundError(String),
    NoSlidesFoundError(String),
    TimeoutError(String),
    ConfigError(String),
    WatchError(String),
    UnknownError(String),
}

pub type Result<T> = std::result::Result<T, BigError>;

impl BigError {
    /// The fixed words that open the message of this kind of error.
    pub open spec fn heading(self) -> Seq<char> {
        match self {
            BigError::FileReadError(_) => "Failed to read file: "@,
            BigError::FetchError(_) => "Failed to fetch remote resource: "@,
            BigError::InvalidResourcePath(_) => "Invalid resource path: "@,
            BigError::MarkdownError(_) => "Markdown conversion error: "@,
            BigError::HtmlError(_) => "HTML generation error: "@,
            BigError::BrowserError { .. } => "Headless browser error: "@,
            BigError::ScreenshotError(_) => "Failed to capture screenshot: "@,
            BigError::PptxError(_) => "PPTX generation error: "@,
            BigError::ValidationError(_) => "Input validation error: "@,
            BigError::BrowserNotFound => "Browser not found. Make sure Chrome/Chromium is installed."@,
            BigError::PathNotFoundError(_) => "Path not found: "@,
            BigError::NoSlidesFoundError(_) => "No slides found matching pattern: "@,
            BigError::TimeoutError(_) => "Timeout error: "@,
            BigError::ConfigError(_) => "Configuration error: "@,
            BigError::WatchError(_) => "Watch error: "@,
            BigError::UnknownError(_) => "Unknown error: "@,
        }
    }

    /// The detail that the error carries; empty for `BrowserNotFound`.
    pub open spec fn detail(self) -> Seq<char> {
        match self {
            BigError::FileReadError(d) => d@,
            BigError::FetchError(d) => d@,
            BigError::InvalidResourcePath(d) => d@,
            BigError::MarkdownError(d) => d@,
            BigError::HtmlError(d) => d@,
            BigError::BrowserError { message } => message@,
            BigError::ScreenshotError(d) => d@,
            BigError::PptxError(d) => d@,
            BigError::ValidationError(d) => d@,
            BigError::BrowserNotFound => Seq::empty(),
            BigError::PathNotFoundError(d) => d@,
            BigError::NoSlidesFoundError(d) => d@,
            BigError::TimeoutError(d) => d@,
            BigError::ConfigError(d) => d@,
            BigError::WatchError(d) => d@,
            BigError::UnknownError(d) => d@,
        }
    }

    /// The message shown to the user: the heading, then the detail.
    pub open spec fn message_text(self) -> Seq<char> {
        self.heading() + self.detail()
    }

    /// The message shown to the user.
    pub fn message(&self) -> (r: String)
        ensures
            r@ == self.message_text(),
    {
        match self {
            BigError::FileReadError(d) => chain("Failed to read file: ", d.as_str()),
            BigError::FetchError(d) => chain("Failed to fetch remote resource: ", d.as_str()),
            BigError::InvalidResourcePath(d) => chain("Invalid resource path: ", d.as_str()),
            BigError::MarkdownError(d) => chain("Markdown conversion error: ", d.as_str()),
            BigError::HtmlError(d) => chain("HTML generation error: ", d.as_str()),
            BigError::BrowserError { message } => chain(
                "Headless browser error: ",
                message.as_str(),
            ),
            BigError::ScreenshotError(d) => chain("Failed to capture screenshot: ", d.as_str()),
            BigError::PptxError(d) => chain("PPTX generation error: ", d.as_str()),
            BigError::ValidationError(d) => chain("Input validation error: ", d.as_str()),
            BigError::BrowserNotFound => {
                let r = "Browser not found. Make sure Chrome/Chromium is installed.".to_owned();
                proof {
                    assert(r@ + Seq::<char>::empty() =~= r@);
                }
                r
            },
            BigError::PathNotFoundError(d) => chain("Path not found: ", d.as_str()),
            BigError::NoSlidesFoundError(d) => chain(
                "No slides found matching pattern: ",
                d.as_str(),
            ),
            BigError::TimeoutError(d) => chain("Timeout error: ", d.as_str()),
            BigError::ConfigError(d) => chain("Configuration error: ", d.as_str()),
            BigError::WatchError(d) => chain("Watch error: ", d.as_str()),
            BigError::UnknownError(d) => chain("Unknown error: ", d.as_str()),
        }
    }

    /// The error for a failure of the archive writer, from the writer's own
    /// description of it.
    pub fn from_archive_failure(description: &str) -> (e: BigError)
        ensures
            e matches BigError::PptxError(d) && d@ == "ZIP operation failed: "@ + description@,
    {
        BigError::PptxError(chain("ZIP operation failed: ", description))
    }

    /// The error for a failure of no known kind, from its description.
    pub fn from_description(description: &str) -> (e: BigError)
        ensures
            e matches BigError::UnknownError(d) && d@ == description@,
    {
        BigError::UnknownError(description.to_owned())
    }
}

} // verus!
