//! Classification of captured text: its kind, the programming language of
//! code, and a short preview.
//!
//! The kinds are tried in a fixed order and the first that matches wins:
//! URL, e-mail address, JSON, HTML, Markdown, code, plain text.

use vstd::prelude::*;
use crate::pattern::Pattern;
use crate::text::{chars_of, string_of, trim, trim_chars};

verus! {

/// A whole absolute http(s) URL.
pub const URL_PATTERN: &'static str =
    r"^https?://(?:[-\w.])+(?:\:[0-9]+)?(?:/(?:[\w\/_.])*(?:\?(?:[\w&=%.])*)?(?:\#(?:[\w.])*)?)?$";

/// A whole single e-mail address.
pub const EMAIL_PATTERN: &'static str = r"^[a-zA-Z0-9._%+-]+@[a-zA-Z0-9.-]+\.[a-zA-Z]{2,}$";

/// Text wrapped in braces or brackets.
pub const JSON_ENVELOPE_PATTERN: &'static str = r"^\s*[\{\[][\s\S]*[\}\]]\s*$";

/// An opening or closing tag.
pub const HTML_PATTERN: &'static str = r"<\/?[a-z][\s\S]*>";

/// A heading, list item, emphasis or link token at the start of a line.
pub const MARKDOWN_PATTERN: &'static str = r"(?m)^#{1,6}\s|^\*\*|^__|\[.*\]\(.*\)|^\s*[-+*]\s";

pub const JS_BINDING: &'static str = r"(const|let|var)\s+\w+\s*=";
pub const JS_FUNCTION: &'static str = r"function\s+\w+\s*\(";
pub const JS_ARROW: &'static str = r"=>\s*\{";
pub const JS_IMPORT: &'static str = r"import\s+.*\s+from\s+";
pub const JS_EXPORT: &'static str = r"export\s+(default\s+)?";

pub const PY_DEF: &'static str = r"def\s+\w+\s*\(";
pub const PY_CLASS: &'static str = r"class\s+\w+\s*\(";
pub const PY_IMPORT: &'static str = r"import\s+\w+";
pub const PY_FROM_IMPORT: &'static str = r"from\s+\w+\s+import";
pub const PY_MAIN_GUARD: &'static str = r#"if\s+__name__\s*==\s*["']__main__["']"#;

pub const RS_FN: &'static str = r"fn\s+\w+\s*\(";
pub const RS_STRUCT: &'static str = r"struct\s+\w+\s*\{";
pub const RS_ENUM: &'static str = r"enum\s+\w+\s*\{";
pub const RS_USE: &'static str = r"use\s+\w+";
pub const RS_IMPL: &'static str = r"impl\s+\w+";

pub const GO_FUNC: &'static str = r"func\s+\w+\s*\(";
pub const GO_STRUCT: &'static str = r"type\s+\w+\s+struct";
pub const GO_PACKAGE: &'static str = r"package\s+\w+";
pub const GO_IMPORT_BLOCK: &'static str = r"import\s+\(";
pub const GO_VAR: &'static str = r"var\s+\w+\s+=";

/// Label given to every capture's origin: the origin is not detected.
pub const UNKNOWN_APP: &'static str = "unknown";

/// Longest preview, in characters, before the ellipsis.
pub const PREVIEW_LIMIT: usize = 200;

/// Whether the regular expression `pattern` compiles and matches somewhere
/// in `text`, as `regex::Regex` has it.
pub uninterp spec fn regex_finds(pattern: Seq<char>, text: Seq<char>) -> bool;

/// Whether `text` is one well-formed JSON value.
pub uninterp spec fn json_parses(text: Seq<char>) -> bool;

/// Relies on `serde_json::from_str` into a `serde_json::Value`: whether
/// `text` parses as JSON. The answer depends on `text` alone.
#[verifier::external_body]
fn parses_as_json(text: &str) -> (r: bool)
    ensures
        r == json_parses(text@),
{
    serde_json::from_str::<serde_json::Value>(text).is_ok()
}

/// The kinds of captured text.
#[derive(PartialEq, Eq, Structural, Clone, Copy, Debug)]
pub enum ContentKind {
    Url,
    Email,
    Json,
    Html,
    Markdown,
    Code,
    Text,
}

/// The name under which a kind is stored.
pub open spec fn kind_label(k: ContentKind) -> Seq<char> {
    match k {
        ContentKind::Url => "url"@,
        ContentKind::Email => "email"@,
        ContentKind::Json => "json"@,
        ContentKind::Html => "html"@,
        ContentKind::Markdown => "markdown"@,
        ContentKind::Code => "code"@,
        ContentKind::Text => "text"@,
    }
}

impl ContentKind {
    /// The name under which this kind is stored.
    pub fn label(&self) -> (r: &'static str)
        ensures
            r@ == kind_label(*self),
    {
        match self {
            ContentKind::Url => "url",
            ContentKind::Email => "email",
            ContentKind::Json => "json",
            ContentKind::Html => "html",
            ContentKind::Markdown => "markdown",
            ContentKind::Code => "code",
            ContentKind::Text => "text",
        }
    }
}

/// One language of the code detector: its name and the patterns that each
/// count one point towards it.
pub struct LanguagePatterns {
    pub language: &'static str,
    pub patterns: Vec<Pattern>,
}

impl View for LanguagePatterns {
    type V = (Seq<char>, Seq<Seq<char>>);

    open spec fn view(&self) -> (Seq<char>, Seq<Seq<char>>) {
        (self.language@, self.patterns@.map_values(|p: Pattern| p.source()))
    }
}

/// A table of languages, in the order in which they were registered.
pub type LanguageTable = Seq<(Seq<char>, Seq<Seq<char>>)>;

/// The languages that a new detector knows, in order.
pub open spec fn standard_languages() -> LanguageTable {
    seq![
        ("javascript"@, seq![JS_BINDING@, JS_FUNCTION@, JS_ARROW@, JS_IMPORT@, JS_EXPORT@]),
        ("python"@, seq![PY_DEF@, PY_CLASS@, PY_IMPORT@, PY_FROM_IMPORT@, PY_MAIN_GUARD@]),
        ("rust"@, seq![RS_FN@, RS_STRUCT@, RS_ENUM@, RS_USE@, RS_IMPL@]),
        ("go"@, seq![GO_FUNC@, GO_STRUCT@, GO_PACKAGE@, GO_IMPORT_BLOCK@, GO_VAR@]),
    ]
}

/// How many of `patterns` match somewhere in `text`.
pub open spec fn pattern_score(patterns: Seq<Seq<char>>, text: Seq<char>) -> nat
    decreases patterns.len(),
{
    if patterns.len() == 0 {
        0
    } else {
        pattern_score(patterns.drop_last(), text) + if regex_finds(patterns.last(), text) {
            1nat
        } else {
            0nat
        }
    }
}

/// The score of the `i`-th language of `table` on `text`.
pub open spec fn language_score(table: LanguageTable, i: int, text: Seq<char>) -> nat {
    pattern_score(table[i].1, text)
}

/// The `i`-th language wins on `text`: it scores above zero, strictly above
/// every earlier language and at least as high as every later one.
pub open spec fn is_winner(table: LanguageTable, i: int, text: Seq<char>) -> bool {
    &&& 0 <= i < table.len()
    &&& language_score(table, i, text) > 0
    &&& forall|j: int|
        0 <= j < i ==> #[trigger] language_score(table, j, text) < language_score(table, i, text)
    &&& forall|j: int|
        i < j < table.len() ==> #[trigger] language_score(table, j, text) <= language_score(
            table,
            i,
            text,
        )
}

/// The language of `text` by `table`: the winner's name, if one wins.
pub open spec fn code_language(table: LanguageTable, text: Seq<char>) -> Option<Seq<char>> {
    if exists|i: int| is_winner(table, i, text) {
        Some(table[choose|i: int| is_winner(table, i, text)].0)
    } else {
        None
    }
}

/// At most one language wins.
pub proof fn lemma_winner_unique(table: LanguageTable, i: int, k: int, text: Seq<char>)
    requires
        is_winner(table, i, text),
        is_winner(table, k, text),
    ensures
        i == k,
{
    if i < k {
        assert(language_score(table, i, text) < language_score(table, k, text));
    } else if k < i {
        assert(language_score(table, k, text) < language_score(table, i, text));
    }
}

/// The kind of `text` by the ordered rules.
pub open spec fn kind_of(table: LanguageTable, text: Seq<char>) -> ContentKind {
    let t = trim(text);
    if regex_finds(URL_PATTERN@, t) {
        ContentKind::Url
    } else if regex_finds(EMAIL_PATTERN@, t) {
        ContentKind::Email
    } else if regex_finds(JSON_ENVELOPE_PATTERN@, t) && json_parses(t) {
        ContentKind::Json
    } else if regex_finds(HTML_PATTERN@, text) {
        ContentKind::Html
    } else if regex_finds(MARKDOWN_PATTERN@, text) {
        ContentKind::Markdown
    } else if code_language(table, text) is Some {
        ContentKind::Code
    } else {
        ContentKind::Text
    }
}

/// The language recorded for `text`: "json" and "html" for those kinds, the
/// detected language for code, none otherwise.
pub open spec fn language_of(table: LanguageTable, text: Seq<char>) -> Option<Seq<char>> {
    match kind_of(table, text) {
        ContentKind::Json => Some("json"@),
        ContentKind::Html => Some("html"@),
        ContentKind::Code => code_language(table, text),
        _ => None,
    }
}

/// Position of the last space in `s`, or -1.
pub open spec fn last_space(s: Seq<char>) -> int
    decreases s.len(),
{
    if s.len() == 0 {
        -1
    } else if s.last() == ' ' {
        s.len() - 1
    } else {
        last_space(s.drop_last())
    }
}

/// What ends a cut preview.
pub open spec fn ellipsis() -> Seq<char> {
    seq!['.', '.', '.']
}

/// The preview of `text`: the trimmed text if it is short enough; else its
/// first `PREVIEW_LIMIT` characters, cut back to before the last space among
/// them if there is one, followed by an ellipsis.
pub open spec fn preview_of(text: Seq<char>) -> Seq<char> {
    let t = trim(text);
    if t.len() <= PREVIEW_LIMIT {
        t
    } else {
        let cut = t.take(PREVIEW_LIMIT as int);
        if last_space(cut) >= 0 {
            cut.take(last_space(cut)) + ellipsis()
        } else {
            cut + ellipsis()
        }
    }
}

/// What the classifier reports of a text, as values.
pub struct ContentInfoView {
    pub content_type: Seq<char>,
    pub code_language: Option<Seq<char>>,
    pub source_app: Seq<char>,
    pub preview: Seq<char>,
    pub size: usize,
}

/// The report on `text` by `table`; `size` is its length in UTF-8 bytes.
pub open spec fn classify(table: LanguageTable, text: Seq<char>) -> ContentInfoView {
    ContentInfoView {
        content_type: kind_label(kind_of(table, text)),
        code_language: language_of(table, text),
        source_app: UNKNOWN_APP@,
        preview: preview_of(text),
        size: vstd::utf8::encode_utf8(text).len() as usize,
    }
}

/// The report on `text` by the standard languages.
pub open spec fn classification(text: Seq<char>) -> ContentInfoView {
    classify(standard_languages(), text)
}

/// The text an optional `String` holds, as values.
pub open spec fn text_option(o: Option<String>) -> Option<Seq<char>> {
    match o {
        Some(s) => Some(s@),
        None => None,
    }
}

/// Information about detected clipboard content.
#[derive(Debug, Clone)]
pub struct ClipboardContentInfo {
    pub content_type: String,
    pub code_language: Option<String>,
    pub source_app: String,
    pub preview: String,
    pub size: usize,
}

impl View for ClipboardContentInfo {
    type V = ContentInfoView;

    open spec fn view(&self) -> ContentInfoView {
        ContentInfoView {
            content_type: self.content_type@,
            code_language: text_option(self.code_language),
            source_app: self.source_app@,
            preview: self.preview@,
            size: self.size,
        }
    }
}

impl Default for ClipboardContentInfo {
    fn default() -> (r: Self)
        ensures
            r.content_type@ == kind_label(ContentKind::Text),
            r.code_language is None,
            r.source_app@ == UNKNOWN_APP@,
            r.preview@ == Seq::<char>::empty(),
            r.size == 0,
    {
        ClipboardContentInfo {
            content_type: String::from_str(ContentKind::Text.label()),
            code_language: None,
            source_app: String::from_str(UNKNOWN_APP),
            preview: String::new(),
            size: 0,
        }
    }
}

/// Content detection engine: ordered rules over fixed patterns, and a
/// scored vote over a table of languages for code.
pub struct ContentDetector {
    url: Pattern,
    email: Pattern,
    json_envelope: Pattern,
    html: Pattern,
    markdown: Pattern,
    code_patterns: Vec<LanguagePatterns>,
}

impl View for ContentDetector {
    type V = LanguageTable;

    closed spec fn view(&self) -> LanguageTable {
        self.code_patterns@.map_values(|l: LanguagePatterns| l@)
    }
}

proof fn lemma_last_space_at(s: Seq<char>, k: int)
    requires
        0 <= k <= s.len(),
        forall|m: int| k <= m < s.len() ==> #[trigger] s[m] != ' ',
        k == 0 || s[k - 1] == ' ',
    ensures
        last_space(s) == k - 1,
    decreases s.len() - k,
{
    if k < s.len() {
        let t = s.drop_last();
        assert forall|m: int| k <= m < t.len() implies #[trigger] t[m] != ' ' by {
            assert(t[m] == s[m]);
        }
        lemma_last_space_at(t, k);
    }
}

impl ContentDetector {
    /// The fixed rules are compiled from their patterns.
    pub closed spec fn wf(&self) -> bool {
        &&& self.url.source() == URL_PATTERN@
        &&& self.email.source() == EMAIL_PATTERN@
        &&& self.json_envelope.source() == JSON_ENVELOPE_PATTERN@
        &&& self.html.source() == HTML_PATTERN@
        &&& self.markdown.source() == MARKDOWN_PATTERN@
    }

    /// A detector that knows the standard languages, with every pattern
    /// compiled once.
    pub fn new() -> (r: Self)
        ensures
            r.wf(),
            r@ == standard_languages(),
    {
        let code_patterns = vec![
            LanguagePatterns {
                language: "javascript",
                patterns: vec![
                    Pattern::compile(JS_BINDING),
                    Pattern::compile(JS_FUNCTION),
                    Pattern::compile(JS_ARROW),
                    Pattern::compile(JS_IMPORT),
                    Pattern::compile(JS_EXPORT),
                ],
            },
            LanguagePatterns {
                language: "python",
                patterns: vec![
                    Pattern::compile(PY_DEF),
                    Pattern::compile(PY_CLASS),
                    Pattern::compile(PY_IMPORT),
                    Pattern::compile(PY_FROM_IMPORT),
                    Pattern::compile(PY_MAIN_GUARD),
                ],
            },
            LanguagePatterns {
                language: "rust",
                patterns: vec![
                    Pattern::compile(RS_FN),
                    Pattern::compile(RS_STRUCT),
                    Pattern::compile(RS_ENUM),
                    Pattern::compile(RS_USE),
                    Pattern::compile(RS_IMPL),
                ],
            },
            LanguagePatterns {
                language: "go",
                patterns: vec![
                    Pattern::compile(GO_FUNC),
                    Pattern::compile(GO_STRUCT),
                    Pattern::compile(GO_PACKAGE),
                    Pattern::compile(GO_IMPORT_BLOCK),
                    Pattern::compile(GO_VAR),
                ],
            },
        ];
        let r = ContentDetector {
            url: Pattern::compile(URL_PATTERN),
            email: Pattern::compile(EMAIL_PATTERN),
            json_envelope: Pattern::compile(JSON_ENVELOPE_PATTERN),
            html: Pattern::compile(HTML_PATTERN),
            markdown: Pattern::compile(MARKDOWN_PATTERN),
            code_patterns,
        };
        assert(r@ =~~= standard_languages());
        r
    }

    /// Classifies `content`: its kind by the first rule that matches, the
    /// language recorded for it, its preview and its length in bytes.
    pub fn detect_content(&self, content: &str) -> (r: ClipboardContentInfo)
        requires
            self.wf(),
        ensures
            r@ == classify(self@, content@),
    {
        let trimmed = string_of(&trim_chars(content));
        let size = content.len();
        let preview = Self::create_preview(content);
        let kind: ContentKind;
        let mut code_language: Option<String> = None;
        if self.url.is_match(trimmed.as_str()) {
            kind = ContentKind::Url;
        } else if self.email.is_match(trimmed.as_str()) {
            kind = ContentKind::Email;
        } else if self.is_json(trimmed.as_str()) {
            kind = ContentKind::Json;
            code_language = Some(String::from_str("json"));
        } else if self.html.is_match(content) {
            kind = ContentKind::Html;
            code_language = Some(String::from_str("html"));
        } else if self.markdown.is_match(content) {
            kind = ContentKind::Markdown;
        } else {
            code_language = self.detect_code_language(content);
            if code_language.is_some() {
                kind = ContentKind::Code;
            } else {
                kind = ContentKind::Text;
            }
        }
        ClipboardContentInfo {
            content_type: String::from_str(kind.label()),
            code_language,
            source_app: String::from_str(UNKNOWN_APP),
            preview,
            size,
        }
    }

    /// Whether `text` is wrapped in braces or brackets and parses as JSON.
    fn is_json(&self, text: &str) -> (r: bool)
        requires
            self.wf(),
        ensures
            r == (regex_finds(JSON_ENVELOPE_PATTERN@, text@) && json_parses(text@)),
    {
        self.json_envelope.is_match(text) && parses_as_json(text)
    }

    /// The preview of `content`.
    fn create_preview(content: &str) -> (r: String)
        ensures
            r@ == preview_of(content@),
    {
        let t = trim_chars(content);
        if t.len() <= PREVIEW_LIMIT {
            return string_of(&t);
        }
        let ghost cut = t@.take(PREVIEW_LIMIT as int);
        let mut k: usize = PREVIEW_LIMIT;
        while k > 0 && t[k - 1] != ' '
            invariant
                k <= PREVIEW_LIMIT < t.len(),
                cut == t@.take(PREVIEW_LIMIT as int),
                forall|m: int| k <= m < PREVIEW_LIMIT ==> #[trigger] cut[m] != ' ',
            decreases k,
        {
            k = k - 1;
        }
        proof {
            lemma_last_space_at(cut, k as int);
        }
        let end: usize = if k > 0 {
            k - 1
        } else {
            PREVIEW_LIMIT
        };
        let mut out: Vec<char> = Vec::new();
        let mut i: usize = 0;
        while i < end
            invariant
                end <= PREVIEW_LIMIT < t.len(),
                i <= end,
                out@ == t@.take(i as int),
            decreases end - i,
        {
            out.push(t[i]);
            i = i + 1;
            assert(out@ =~= t@.take(i as int));
        }
        out.push('.');
        out.push('.');
        out.push('.');
        assert(out@ =~= preview_of(content@));
        string_of(&out)
    }

    /// How many of `patterns` match somewhere in `content`.
    fn score(patterns: &Vec<Pattern>, content: &str) -> (r: usize)
        ensures
            r == pattern_score(patterns@.map_values(|p: Pattern| p.source()), content@),
    {
        let ghost ps = patterns@.map_values(|p: Pattern| p.source());
        let mut total: usize = 0;
        let mut k: usize = 0;
        while k < patterns.len()
            invariant
                ps == patterns@.map_values(|p: Pattern| p.source()),
                k <= patterns.len(),
                total <= k,
                total == pattern_score(ps.take(k as int), content@),
            decreases patterns.len() - k,
        {
            let hit = patterns[k].is_match(content);
            proof {
                assert(ps.take(k + 1).drop_last() =~= ps.take(k as int));
                assert(ps.take(k + 1).last() == ps[k as int]);
            }
            if hit {
                total = total + 1;
            }
            k = k + 1;
        }
        assert(ps.take(k as int) =~= ps);
        total
    }

    /// The language of `content`: the one with the highest score above zero,
    /// the earliest registered among equals; none where every score is zero.
    pub fn detect_code_language(&self, content: &str) -> (r: Option<String>)
        ensures
            text_option(r) == code_language(self@, content@),
            r is None <==> (forall|i: int|
                0 <= i < self@.len() ==> #[trigger] language_score(self@, i, content@) == 0),
    {
        let ghost table = self@;
        let n = self.code_patterns.len();
        let mut best: usize = 0;
        let mut best_score: usize = 0;
        let mut t: usize = 0;
        while t < n
            invariant
                table == self@,
                n == self.code_patterns.len() == table.len(),
                t <= n,
                best_score == 0 ==> forall|j: int|
                    0 <= j < t ==> #[trigger] language_score(table, j, content@) == 0,
                best_score > 0 ==> {
                    &&& best < t
                    &&& best_score == language_score(table, best as int, content@)
                    &&& forall|j: int|
                        0 <= j < best ==> #[trigger] language_score(table, j, content@)
                            < best_score
                    &&& forall|j: int|
                        best < j < t ==> #[trigger] language_score(table, j, content@)
                            <= best_score
                },
            decreases n - t,
        {
            let s = Self::score(&self.code_patterns[t].patterns, content);
            assert(table[t as int] == self.code_patterns@[t as int]@);
            if s > best_score {
                best = t;
                best_score = s;
            }
            t = t + 1;
        }
        if best_score == 0 {
            assert(!exists|i: int| is_winner(table, i, content@));
            None
        } else {
            assert(is_winner(table, best as int, content@));
            proof {
                let c = choose|i: int| is_winner(table, i, content@);
                lemma_winner_unique(table, best as int, c, content@);
            }
            assert(table[best as int].0 == self.code_patterns@[best as int].language@);
            Some(String::from_str(self.code_patterns[best].language))
        }
    }
}

} // verus!
