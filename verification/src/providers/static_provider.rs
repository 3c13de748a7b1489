//! Completions from fixed patterns: a line that opens a function, a branch,
//! a loop or a definition is completed with the block that follows it.

use crate::completion::{
    Completion, CompletionProvider, CompletionRequest, CompletionSource, Confidence, Pattern,
    PatternDetector,
};
use crate::text::{contains_char, ends_with_char, same_text, trim, trimmed};
use regex::Regex;
use serde_json::Value;
use vstd::prelude::*;

verus! {

/// What the `regex` crate finds of `pattern` in `text`: `Some(true)` where
/// the expression matches somewhere in the text, `Some(false)` where it
/// matches nowhere, `None` where `pattern` is no expression that the crate
/// accepts.
pub uninterp spec fn regex_search(pattern: Seq<char>, text: Seq<char>) -> Option<bool>;

/// `Regex::new` followed by `Regex::is_match`: compiles `pattern` and
/// reports whether it matches anywhere in `text`. A pattern that does not
/// compile gives `None`. The answer depends on the two texts alone.
#[verifier::external_body]
fn search(pattern: &str, text: &str) -> (r: Option<bool>)
    ensures
        r == regex_search(pattern@, text@),
{
    match Regex::new(pattern) {
        Ok(expression) => Some(expression.is_match(text)),
        Err(_) => None,
    }
}

/// Whether the expression is one that matches somewhere in the text.
pub open spec fn found(pattern: Seq<char>, text: Seq<char>) -> bool {
    regex_search(pattern, text) == Some(true)
}

/// Whether the expression is one that matches somewhere in the text.
fn is_found(pattern: &str, text: &str) -> (r: bool)
    ensures
        r == found(pattern@, text@),
{
    match search(pattern, text) {
        Some(answer) => answer,
        None => false,
    }
}

/// What a line of Rust, without the space around it, is the beginning of.
/// A line that already holds an opening brace is the beginning of nothing.
pub open spec fn rust_pattern(line: Seq<char>) -> Pattern {
    if line.contains('{') {
        Pattern::Unknown
    } else if found(r"^\s*(?:pub\s+)?(?:async\s+)?fn\s+\w+"@, line) {
        Pattern::FunctionStart
    } else if found(r"^\s*if\s+"@, line) {
        Pattern::IfStatement
    } else if found(r"^\s*for\s+"@, line) {
        Pattern::ForLoop
    } else if found(r"^\s*while\s+"@, line) {
        Pattern::WhileLoop
    } else if found(r"^\s*(?:pub\s+)?struct\s+\w+"@, line) {
        Pattern::StructDef
    } else if found(r"^\s*impl(?:<[^>]+>)?\s+"@, line) {
        Pattern::ImplBlock
    } else if found(r"^\s*match\s+"@, line) {
        Pattern::MatchStatement
    } else {
        Pattern::Unknown
    }
}

/// What a line of Python, without the space around it, is the beginning
/// of. A line that already ends in a colon is the beginning of nothing.
pub open spec fn python_pattern(line: Seq<char>) -> Pattern {
    if line.len() > 0 && line.last() == ':' {
        Pattern::Unknown
    } else if found(r"^\s*(?:async\s+)?def\s+\w+"@, line) {
        Pattern::FunctionStart
    } else if found(r"^\s*if\s+"@, line) {
        Pattern::IfStatement
    } else if found(r"^\s*for\s+"@, line) {
        Pattern::ForLoop
    } else if found(r"^\s*while\s+"@, line) {
        Pattern::WhileLoop
    } else if found(r"^\s*class\s+\w+"@, line) {
        Pattern::StructDef
    } else {
        Pattern::Unknown
    }
}

/// What a line of JavaScript or TypeScript, without the space around it, is
/// the beginning of. A line that already holds an opening brace is the
/// beginning of nothing.
pub open spec fn js_pattern(line: Seq<char>) -> Pattern {
    if line.contains('{') {
        Pattern::Unknown
    } else if found(
        r"^\s*(?:async\s+)?(?:function\s+\w+|const\s+\w+\s*=\s*(?:async\s+)?\([^)]*\)\s*=>)"@,
        line,
    ) {
        Pattern::FunctionStart
    } else if found(r"^\s*if\s*\("@, line) {
        Pattern::IfStatement
    } else if found(r"^\s*for\s*\("@, line) {
        Pattern::ForLoop
    } else if found(r"^\s*while\s*\("@, line) {
        Pattern::WhileLoop
    } else {
        Pattern::Unknown
    }
}

/// What a line is the beginning of in the language named. Space around the
/// line does not count; a language that is not known has no patterns.
pub open spec fn detected(line: Seq<char>, language: Seq<char>) -> Pattern {
    if language == "rust"@ {
        rust_pattern(trimmed(line))
    } else if language == "python"@ {
        python_pattern(trimmed(line))
    } else if language == "javascript"@ || language == "typescript"@ {
        js_pattern(trimmed(line))
    } else {
        Pattern::Unknown
    }
}

/// The block that follows a header in a language with braces.
pub open spec fn braces() -> Seq<char> {
    " {\n    \n}"@
}

/// The text that completes the beginning of a pattern in the language
/// named, where there is one.
pub open spec fn template_of(pattern: Pattern, language: Seq<char>) -> Option<Seq<char>> {
    if language == "rust"@ {
        match pattern {
            Pattern::FunctionStart => Some("() {\n    \n}"@),
            Pattern::Unknown => None,
            _ => Some(braces()),
        }
    } else if language == "python"@ {
        match pattern {
            Pattern::FunctionStart | Pattern::IfStatement | Pattern::ForLoop | Pattern::WhileLoop
            | Pattern::StructDef => Some(":\n    "@),
            _ => None,
        }
    } else if language == "javascript"@ || language == "typescript"@ {
        match pattern {
            Pattern::FunctionStart => Some("() {\n    \n}"@),
            Pattern::IfStatement | Pattern::ForLoop | Pattern::WhileLoop => Some(braces()),
            _ => None,
        }
    } else {
        None
    }
}

/// Recognises patterns by fixed regular expressions.
#[derive(Debug, Clone, Copy)]
pub struct StaticPatternDetector;

impl StaticPatternDetector {
    fn detect_rust_pattern(&self, line: &str) -> (r: Pattern)
        ensures
            r == rust_pattern(line@),
    {
        if contains_char(line, '{') {
            return Pattern::Unknown;
        }
        if is_found(r"^\s*(?:pub\s+)?(?:async\s+)?fn\s+\w+", line) {
            return Pattern::FunctionStart;
        }
        if is_found(r"^\s*if\s+", line) {
            return Pattern::IfStatement;
        }
        if is_found(r"^\s*for\s+", line) {
            return Pattern::ForLoop;
        }
        if is_found(r"^\s*while\s+", line) {
            return Pattern::WhileLoop;
        }
        if is_found(r"^\s*(?:pub\s+)?struct\s+\w+", line) {
            return Pattern::StructDef;
        }
        if is_found(r"^\s*impl(?:<[^>]+>)?\s+", line) {
            return Pattern::ImplBlock;
        }
        if is_found(r"^\s*match\s+", line) {
            return Pattern::MatchStatement;
        }
        Pattern::Unknown
    }

    fn detect_python_pattern(&self, line: &str) -> (r: Pattern)
        ensures
            r == python_pattern(line@),
    {
        if ends_with_char(line, ':') {
            return Pattern::Unknown;
        }
        if is_found(r"^\s*(?:async\s+)?def\s+\w+", line) {
            return Pattern::FunctionStart;
        }
        if is_found(r"^\s*if\s+", line) {
            return Pattern::IfStatement;
        }
        if is_found(r"^\s*for\s+", line) {
            return Pattern::ForLoop;
        }
        if is_found(r"^\s*while\s+", line) {
            return Pattern::WhileLoop;
        }
        if is_found(r"^\s*class\s+\w+", line) {
            return Pattern::StructDef;
        }
        Pattern::Unknown
    }

    fn detect_js_pattern(&self, line: &str) -> (r: Pattern)
        ensures
            r == js_pattern(line@),
    {
        if contains_char(line, '{') {
            return Pattern::Unknown;
        }
        if is_found(
            r"^\s*(?:async\s+)?(?:function\s+\w+|const\s+\w+\s*=\s*(?:async\s+)?\([^)]*\)\s*=>)",
            line,
        ) {
            return Pattern::FunctionStart;
        }
        if is_found(r"^\s*if\s*\(", line) {
            return Pattern::IfStatement;
        }
        if is_found(r"^\s*for\s*\(", line) {
            return Pattern::ForLoop;
        }
        if is_found(r"^\s*while\s*\(", line) {
            return Pattern::WhileLoop;
        }
        Pattern::Unknown
    }
}

impl PatternDetector for StaticPatternDetector {
    fn detect_pattern(&self, line: &str, language: &str) -> (r: Pattern)
        ensures
            r == detected(line@, language@),
    {
        let line = trim(line);
        if same_text(language, "rust") {
            self.detect_rust_pattern(line)
        } else if same_text(language, "python") {
            self.detect_python_pattern(line)
        } else if same_text(language, "javascript") || same_text(language, "typescript") {
            self.detect_js_pattern(line)
        } else {
            Pattern::Unknown
        }
    }

    fn get_template(&self, pattern: Pattern, language: &str) -> (r: Option<String>)
        ensures
            match r {
                Some(text) => template_of(pattern, language@) == Some(text@),
                None => template_of(pattern, language@) is None,
            },
    {
        if same_text(language, "rust") {
            match pattern {
                Pattern::FunctionStart => Some("() {\n    \n}".to_owned()),
                Pattern::Unknown => None,
                _ => Some(" {\n    \n}".to_owned()),
            }
        } else if same_text(language, "python") {
            match pattern {
                Pattern::FunctionStart
                | Pattern::IfStatement
                | Pattern::ForLoop
                | Pattern::WhileLoop
                | Pattern::StructDef => Some(":\n    ".to_owned()),
                _ => None,
            }
        } else if same_text(language, "javascript") || same_text(language, "typescript") {
            match pattern {
                Pattern::FunctionStart => Some("() {\n    \n}".to_owned()),
                Pattern::IfStatement | Pattern::ForLoop | Pattern::WhileLoop => Some(
                    " {\n    \n}".to_owned(),
                ),
                _ => None,
            }
        } else {
            None
        }
    }
}

/// Suggests completions from fixed patterns. It can be switched off.
#[derive(Debug)]
pub struct StaticPatternProvider {
    detector: StaticPatternDetector,
    enabled: bool,
}

impl StaticPatternProvider {
    /// Whether the provider is switched on.
    pub closed spec fn enabled(&self) -> bool {
        self.enabled
    }

    /// A provider that is switched on.
    pub fn new() -> (r: Self)
        ensures
            r.enabled(),
    {
        StaticPatternProvider { detector: StaticPatternDetector, enabled: true }
    }

    /// Switches the provider on or off.
    pub fn set_enabled(&mut self, enabled: bool)
        ensures
            final(self).enabled() == enabled,
    {
        self.enabled = enabled;
    }
}


/// `serde_json::Map::insert` on a new `serde_json::Map`, handed on as
/// `Value::Object`: the JSON object whose one member has the key and the
/// string value given. A JSON value is opaque here, so nothing is claimed
/// of it.
#[verifier::external_body]
fn json_member(key: &str, value: &str) -> (r: Value) {
    let mut object = serde_json::Map::new();
    object.insert(key.to_owned(), Value::String(value.to_owned()));
    Value::Object(object)
}

/// The text that a static pattern suggests for a line, where it suggests
/// one: the template of the pattern that the line begins.
pub open spec fn suggested(line: Seq<char>, language: Seq<char>) -> Option<Seq<char>> {
    if detected(line, language) == Pattern::Unknown {
        None
    } else {
        template_of(detected(line, language), language)
    }
}

/// The confidence of every static suggestion: the bit pattern of 0.8.
pub open spec fn static_confidence() -> u32 {
    0x3F4C_CCCD
}

impl CompletionProvider for StaticPatternProvider {
    /// At most one suggestion: the template of the pattern that the current
    /// line begins, with the cursor moved back into the block. The call
    /// never fails.
    fn complete(&self, request: &CompletionRequest) -> (r: Result<Vec<Completion>, String>)
        ensures
            match r {
                Ok(list) => match suggested(request.current_line@, request.language@) {
                    Some(text) => {
                        &&& list@.len() == 1
                        &&& list@[0].text@ == text
                        &&& list@[0].cursor_offset == -2
                        &&& list@[0].confidence.bits == static_confidence()
                        &&& list@[0].source == CompletionSource::Static
                        &&& list@[0].metadata is Some
                    },
                    None => list@.len() == 0,
                },
                Err(_) => false,
            },
    {
        let pattern = self.detector.detect_pattern(
            request.current_line.as_str(),
            request.language.as_str(),
        );
        let mut list: Vec<Completion> = Vec::new();
        if pattern == Pattern::Unknown {
            return Ok(list);
        }
        if let Some(template) = self.detector.get_template(pattern, request.language.as_str()) {
            let name = pattern.name();
            list.push(
                Completion {
                    text: template,
                    cursor_offset: -2,
                    confidence: Confidence { bits: 0x3F4C_CCCD },
                    source: CompletionSource::Static,
                    metadata: Some(json_member("pattern", name.as_str())),
                },
            );
        }
        Ok(list)
    }

    fn name(&self) -> (r: &str)
        ensures
            r@ == "static-pattern"@,
    {
        "static-pattern"
    }

    fn is_enabled(&self) -> (r: bool)
        ensures
            r == self.enabled(),
    {
        self.enabled
    }
}


impl Default for StaticPatternProvider {
    fn default() -> (r: Self)
        ensures
            r.enabled(),
    {
        Self::new()
    }
}

} // verus!
