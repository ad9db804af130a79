//! The content of a page, as text.
use crate::data;
use crate::text;
use vstd::prelude::*;

verus! {

/// How many elements of a page are looked at.
pub const MAX_ELEMENTS: usize = 50_000;

/// A page that was fetched.
#[derive(Debug)]
pub struct FetchedPage {
    pub url: String,
    pub markdown: String,
}

#[verifier::ext_equal]
pub struct FetchedPageView {
    pub url: Seq<char>,
    pub markdown: Seq<char>,
}

impl View for FetchedPage {
    type V = FetchedPageView;

    open spec fn view(&self) -> FetchedPageView {
        FetchedPageView { url: self.url@, markdown: self.markdown@ }
    }
}

/// Why a page was not fetched.
#[derive(Debug)]
pub struct FetchError(pub String);

impl View for FetchError {
    type V = Seq<char>;

    open spec fn view(&self) -> Seq<char> {
        self.0@
    }
}

impl FetchError {
    /// The failure in words.
    pub fn message(&self) -> (r: String)
        ensures
            r@ == "web fetch failed: "@ + self@,
    {
        text::concat("web fetch failed: ", self.0.as_str())
    }
}

/// A failure.
pub fn failure(message: &str) -> (r: FetchError)
    ensures
        r@ == message@,
{
    FetchError(message.to_owned())
}

/// The text that bytes encode under the label of an encoding, and whether some were malformed.
pub uninterp spec fn decoded(label: Seq<char>, bytes: Seq<u8>) -> Option<(Seq<char>, bool)>;

/// What a decoder gave.
pub open spec fn decoded_view(found: Option<(String, bool)>) -> Option<(Seq<char>, bool)> {
    match found {
        Some((content, malformed)) => Some((content@, malformed)),
        None => None,
    }
}

/// Decodes bytes through `encoding_rs::Encoding::for_label` and `Encoding::decode`. There is no text
/// where the label names no encoding. The text, and whether malformed bytes were replaced in it, are
/// a function of the label and the bytes alone. The decoder panics where the size of its buffer
/// overflows, so the bytes are fewer than that takes.
#[verifier::external_body]
pub(crate) fn decode_labelled(label: &str, bytes: &[u8]) -> (r: Option<(String, bool)>)
    requires
        bytes@.len() <= usize::MAX / 8,
    ensures
        decoded_view(r) == decoded(label@, bytes@),
{
    let encoding = encoding_rs::Encoding::for_label(label.as_bytes())?;
    let (content, _, malformed) = encoding.decode(bytes);
    Some((content.into_owned(), malformed))
}

/// The title and the text of an article, or at what it failed.
#[derive(Debug)]
pub enum Extraction {
    Article { title: String, content: String },
    BadPage(String),
    NoArticle(String),
}

#[verifier::ext_equal]
pub enum ExtractionView {
    Article { title: Seq<char>, content: Seq<char> },
    BadPage(Seq<char>),
    NoArticle(Seq<char>),
}

impl View for Extraction {
    type V = ExtractionView;

    open spec fn view(&self) -> ExtractionView {
        match self {
            Extraction::Article { title, content } => ExtractionView::Article {
                title: title@,
                content: content@,
            },
            Extraction::BadPage(reason) => ExtractionView::BadPage(reason@),
            Extraction::NoArticle(reason) => ExtractionView::NoArticle(reason@),
        }
    }
}

/// The article that a page holds.
pub uninterp spec fn article_of(html: Seq<char>, url: Seq<char>, max_elements: nat) ->
    ExtractionView;

/// Extracts the article of a page as Markdown through `dom_smoothie::Readability::new` and `parse`.
/// A page that is not accepted and one without an article are told apart by which of the two fails.
/// What is extracted is a function of the page, its address and the limit on its elements alone: the
/// crate keeps the order of its candidates and walks no map by its hashes to choose among them.
#[verifier::external_body]
pub(crate) fn extract_article(html: &str, url: &str, max_elements: usize) -> (r: Extraction)
    ensures
        r@ == article_of(html@, url@, max_elements as nat),
{
    let config = dom_smoothie::Config {
        max_elements_to_parse: max_elements,
        text_mode: dom_smoothie::TextMode::Markdown,
        ..Default::default()
    };
    match dom_smoothie::Readability::new(html, Some(url), Some(config)) {
        Err(error) => Extraction::BadPage(error.to_string()),
        Ok(mut page) => match page.parse() {
            Err(error) => Extraction::NoArticle(error.to_string()),
            Ok(article) => Extraction::Article {
                title: article.title.to_string(),
                content: article.text_content.to_string(),
            },
        },
    }
}

/// The text of a parameter and of its value, around the first equals sign.
pub open spec fn around_equals(parameter: Seq<char>) -> Option<(Seq<char>, Seq<char>)> {
    let at = text::index_of_char(parameter, '=');
    if 0 <= at < parameter.len() {
        Some((parameter.take(at), parameter.skip(at + 1)))
    } else {
        None
    }
}

/// Whether a character is a quotation mark.
pub open spec fn quote(c: char) -> bool {
    c == '\'' || c == '"'
}

/// A text without quotation marks at its start.
pub open spec fn unquoted_start(s: Seq<char>) -> Seq<char>
    decreases s.len(),
{
    if s.len() > 0 && quote(s[0]) {
        unquoted_start(s.drop_first())
    } else {
        s
    }
}

/// A text without quotation marks at its end.
pub open spec fn unquoted_end(s: Seq<char>) -> Seq<char>
    decreases s.len(),
{
    if s.len() > 0 && quote(s.last()) {
        unquoted_end(s.drop_last())
    } else {
        s
    }
}

/// The encoding that a parameter names.
pub open spec fn parameter_charset(parameter: Seq<char>) -> Option<Seq<char>> {
    match around_equals(text::trimmed(parameter)) {
        Some((name, value)) => if text::same_ignoring_case(text::trimmed(name), "charset"@) {
            Some(unquoted_end(unquoted_start(text::trimmed(value))))
        } else {
            None
        },
        None => None,
    }
}

/// The encoding that one of the parameters from `i` on names.
pub open spec fn charset_from(parameters: Seq<Seq<char>>, i: int) -> Option<Seq<char>>
    decreases parameters.len() - i,
{
    if i < 0 || i >= parameters.len() {
        None
    } else {
        match parameter_charset(parameters[i]) {
            Some(label) => Some(label),
            None => charset_from(parameters, i + 1),
        }
    }
}

/// The encoding that a content type declares.
pub open spec fn declared_charset(content_type: Seq<char>) -> Option<Seq<char>> {
    charset_from(text::split_of(content_type, ';'), 1)
}

fn strip_quotes(s: &str) -> (r: String)
    ensures
        r@ == unquoted_end(unquoted_start(s@)),
{
    let chars = text::to_chars(s);
    let mut from: usize = 0;
    assert(chars@.skip(0) =~= chars@);
    while from < chars.len() && (chars[from] == '\'' || chars[from] == '"')
        invariant
            from <= chars@.len(),
            chars@ == s@,
            unquoted_start(chars@.skip(from as int)) == unquoted_start(s@),
        decreases chars@.len() - from,
    {
        assert(chars@.skip(from as int).drop_first() =~= chars@.skip(from + 1));
        from += 1;
    }
    let ghost rest = chars@.skip(from as int);
    assert(from < chars@.len() ==> rest[0] == chars@[from as int]);
    assert(unquoted_start(s@) == rest);
    let mut to: usize = chars.len();
    assert(rest.take(to - from) =~= rest);
    while to > from && (chars[to - 1] == '\'' || chars[to - 1] == '"')
        invariant
            from <= to <= chars@.len(),
            chars@ == s@,
            rest == chars@.skip(from as int),
            unquoted_end(rest.take(to - from)) == unquoted_end(rest),
        decreases to,
    {
        assert(rest.take(to - from).last() == chars@[to - 1]);
        assert(rest.take(to - from).drop_last() =~= rest.take(to - 1 - from));
        to -= 1;
    }
    let kept = text::slice(&chars, from, to);
    proof {
        assert(kept@ =~= rest.take(to - from));
        if to > from {
            assert(kept@.last() == chars@[to - 1]);
        }
    }
    kept
}

fn read_parameter(parameter: &str) -> (r: Option<String>)
    ensures
        data::option_view(r) == parameter_charset(parameter@),
{
    let shown = text::trim(parameter);
    let chars = text::to_chars(shown.as_str());
    let mut at: usize = 0;
    while at < chars.len() && chars[at] != '='
        invariant
            at <= chars@.len(),
            forall|k: int| 0 <= k < at ==> chars@[k] != '=',
        decreases chars@.len() - at,
    {
        at += 1;
    }
    proof {
        text::lemma_index_of_char_is(chars@, '=', at as int);
    }
    if at == chars.len() {
        return None;
    }
    let name = text::slice(&chars, 0, at);
    let value = text::slice(&chars, at + 1, chars.len());
    assert(name@ =~= chars@.take(at as int));
    assert(value@ =~= chars@.skip(at + 1));
    let trimmed_name = text::trim(name.as_str());
    if text::eq_ignore_case(trimmed_name.as_str(), "charset") {
        let trimmed_value = text::trim(value.as_str());
        Some(strip_quotes(trimmed_value.as_str()))
    } else {
        None
    }
}

/// The encoding that a content type declares.
pub fn find_charset(content_type: &str) -> (r: Option<String>)
    ensures
        data::option_view(r) == declared_charset(content_type@),
{
    let parameters = text::split(content_type, ';');
    let ghost all = data::views(parameters@);
    assert(all.len() == parameters@.len());
    if parameters.len() == 0 {
        return None;
    }
    let mut i: usize = 1;
    while i < parameters.len()
        invariant
            1 <= i <= parameters@.len(),
            all == data::views(parameters@),
            all.len() == parameters@.len(),
            all == text::split_of(content_type@, ';'),
            charset_from(all, 1) == charset_from(all, i as int),
        decreases parameters@.len() - i,
    {
        assert(all[i as int] == parameters@[i as int]@);
        if let Some(label) = read_parameter(parameters[i].as_str()) {
            return Some(label);
        }
        i += 1;
    }
    None
}

/// The label under which a page is decoded: UTF-8 where none is declared.
pub open spec fn charset_label(content_type: Seq<char>) -> Seq<char> {
    match declared_charset(content_type) {
        Some(label) => label,
        None => "utf-8"@,
    }
}

/// The text of a page, from what the decoder gave.
pub open spec fn decoded_page(label: Seq<char>, found: Option<(Seq<char>, bool)>) -> Result<
    Seq<char>,
    Seq<char>,
> {
    match found {
        None => Err("unsupported charset: "@ + label),
        Some((content, malformed)) => if malformed {
            Err("response contains malformed text"@)
        } else {
            Ok(content)
        },
    }
}

/// The text of a page, from what the decoder gave.
pub fn accept_decoded(label: &str, found: Option<(String, bool)>) -> (r: Result<String, FetchError>)
    ensures
        crate::error::result_view(r) == decoded_page(label@, decoded_view(found)),
{
    match found {
        None => Err(FetchError(text::concat("unsupported charset: ", label))),
        Some((content, malformed)) => if malformed {
            Err(failure("response contains malformed text"))
        } else {
            Ok(content)
        },
    }
}

/// The text of a page, under the encoding that its content type declares.
pub fn decode(bytes: &[u8], content_type: &str) -> (r: Result<String, FetchError>)
    requires
        bytes@.len() <= usize::MAX / 8,
    ensures
        crate::error::result_view(r) == decoded_page(
            charset_label(content_type@),
            decoded(charset_label(content_type@), bytes@),
        ),
{
    let label = match find_charset(content_type) {
        Some(label) => label,
        None => "utf-8".to_owned(),
    };
    let found = decode_labelled(label.as_str(), bytes);
    accept_decoded(label.as_str(), found)
}

/// An article as text: its title as a heading, unless it has none or its text begins with it.
pub open spec fn headed(title: Seq<char>, content: Seq<char>) -> Seq<char> {
    let name = text::trimmed(title);
    let shown = text::trimmed(content);
    if name.len() == 0 || text::starts(shown, "# "@ + name) {
        shown
    } else {
        "# "@ + name + "\n\n"@ + shown
    }
}

/// The text of a page in HTML, from what was extracted of it.
pub open spec fn readable(found: ExtractionView) -> Result<Seq<char>, Seq<char>> {
    match found {
        ExtractionView::Article { title, content } => Ok(headed(title, content)),
        ExtractionView::BadPage(reason) => Err("HTML parse failed: "@ + reason),
        ExtractionView::NoArticle(reason) => Err("article extraction failed: "@ + reason),
    }
}

/// The text of a page in HTML, from what was extracted of it.
pub fn accept_article(found: Extraction) -> (r: Result<String, FetchError>)
    ensures
        crate::error::result_view(r) == readable(found@),
{
    match found {
        Extraction::Article { title, content } => {
            let shown = text::trim(content.as_str());
            let name = text::trim(title.as_str());
            let heading = text::concat("# ", name.as_str());
            if name.as_str().is_empty() || text::starts_with(shown.as_str(), heading.as_str()) {
                Ok(shown)
            } else {
                Ok(text::concat3(heading.as_str(), "\n\n", shown.as_str()))
            }
        },
        Extraction::BadPage(reason) => Err(
            FetchError(text::concat("HTML parse failed: ", reason.as_str())),
        ),
        Extraction::NoArticle(reason) => Err(
            FetchError(text::concat("article extraction failed: ", reason.as_str())),
        ),
    }
}

/// The text of a page in HTML.
pub fn readable_markdown(html: &str, url: &str) -> (r: Result<String, FetchError>)
    ensures
        crate::error::result_view(r) == readable(article_of(html@, url@, MAX_ELEMENTS as nat)),
{
    accept_article(extract_article(html, url, MAX_ELEMENTS))
}

/// The kind of content that a content type tells, in lower case and without its parameters.
pub open spec fn media_type_of(content_type: Seq<char>) -> Seq<char> {
    text::lowercase(text::trimmed(text::split_of(content_type, ';')[0]))
}

/// How the content of a page becomes text.
#[derive(Clone, Copy, Debug, PartialEq, Eq, Structural)]
pub enum PageKind {
    Html,
    Plain,
    Json,
    Xml,
    Unsupported,
}

/// How content of a kind becomes text.
pub open spec fn kind_of(media_type: Seq<char>) -> PageKind {
    if media_type == "text/html"@ || media_type == "application/xhtml+xml"@ {
        PageKind::Html
    } else if media_type == "text/markdown"@ || media_type == "text/x-markdown"@ || media_type
        == "text/plain"@ {
        PageKind::Plain
    } else if media_type == "application/json"@ {
        PageKind::Json
    } else if media_type == "application/xml"@ || media_type == "text/xml"@ {
        PageKind::Xml
    } else if text::starts(media_type, "text/"@) {
        PageKind::Plain
    } else {
        PageKind::Unsupported
    }
}

/// The kind of content that a content type tells.
pub fn media_type(content_type: &str) -> (r: String)
    ensures
        r@ == media_type_of(content_type@),
{
    let parts = text::split(content_type, ';');
    proof {
        text::lemma_split_has_first(content_type@, ';');
        assert(data::views(parts@).len() == parts@.len());
        assert(data::views(parts@)[0] == parts@[0]@);
    }
    let shown = text::trim(parts[0].as_str());
    text::to_lowercase(shown.as_str())
}

/// How content of a kind becomes text.
pub fn page_kind(media_type: &str) -> (r: PageKind)
    ensures
        r == kind_of(media_type@),
{
    if text::same(media_type, "text/html") || text::same(media_type, "application/xhtml+xml") {
        PageKind::Html
    } else if text::same(media_type, "text/markdown") || text::same(media_type, "text/x-markdown")
        || text::same(media_type, "text/plain") {
        PageKind::Plain
    } else if text::same(media_type, "application/json") {
        PageKind::Json
    } else if text::same(media_type, "application/xml") || text::same(media_type, "text/xml") {
        PageKind::Xml
    } else if text::starts_with(media_type, "text/") {
        PageKind::Plain
    } else {
        PageKind::Unsupported
    }
}

/// The text of a page: `article` is what an HTML page reads as.
pub open spec fn page_markdown(
    content_type: Seq<char>,
    content: Seq<char>,
    article: Result<Seq<char>, Seq<char>>,
) -> Result<Seq<char>, Seq<char>> {
    match kind_of(media_type_of(content_type)) {
        PageKind::Html => article,
        PageKind::Plain => Ok(content),
        PageKind::Json => Ok("```json\n"@ + content + "\n```"@),
        PageKind::Xml => Ok("```xml\n"@ + content + "\n```"@),
        PageKind::Unsupported => Err(
            "unsupported content type: "@ + media_type_of(content_type),
        ),
    }
}

/// A page whose text is known, unless there is nothing to read on it.
pub open spec fn finished_page(
    url: Seq<char>,
    markdown: Result<Seq<char>, Seq<char>>,
) -> Result<FetchedPageView, Seq<char>> {
    match markdown {
        Ok(markdown) => if text::blank(markdown) {
            Err("response contains no readable content"@)
        } else {
            Ok(FetchedPageView { url, markdown })
        },
        Err(reason) => Err(reason),
    }
}

/// A page whose text is known, unless there is nothing to read on it.
pub fn finish_page(url: String, markdown: Result<String, FetchError>) -> (r: Result<
    FetchedPage,
    FetchError,
>)
    ensures
        crate::error::result_view(r) == finished_page(url@, crate::error::result_view(markdown)),
{
    match markdown {
        Ok(markdown) => if text::is_blank(markdown.as_str()) {
            Err(failure("response contains no readable content"))
        } else {
            Ok(FetchedPage { url, markdown })
        },
        Err(reason) => Err(reason),
    }
}

/// What a page reads as, from its content type and its bytes.
pub open spec fn page_of(url: Seq<char>, content_type: Seq<char>, body: Seq<u8>) -> Result<
    FetchedPageView,
    Seq<char>,
> {
    let label = charset_label(content_type);
    match decoded_page(label, decoded(label, body)) {
        Err(reason) => Err(reason),
        Ok(content) => finished_page(
            url,
            page_markdown(
                content_type,
                content,
                readable(article_of(content, url, MAX_ELEMENTS as nat)),
            ),
        ),
    }
}

/// What a page reads as, from its content type and its bytes.
pub fn page(url: String, content_type: &str, body: &[u8]) -> (r: Result<FetchedPage, FetchError>)
    requires
        body@.len() <= usize::MAX / 8,
    ensures
        crate::error::result_view(r) == page_of(url@, content_type@, body@),
{
    let content = match decode(body, content_type) {
        Ok(content) => content,
        Err(e) => {
            return Err(e);
        },
    };
    let kind_name = media_type(content_type);
    let markdown = match page_kind(kind_name.as_str()) {
        PageKind::Html => readable_markdown(content.as_str(), url.as_str()),
        PageKind::Plain => Ok(content),
        PageKind::Json => Ok(text::concat3("```json\n", content.as_str(), "\n```")),
        PageKind::Xml => Ok(text::concat3("```xml\n", content.as_str(), "\n```")),
        PageKind::Unsupported => Err(
            FetchError(text::concat("unsupported content type: ", kind_name.as_str())),
        ),
    };
    finish_page(url, markdown)
}

/// A page that is accepted always has something to read on it.
pub proof fn law_pages_are_readable(url: Seq<char>, content_type: Seq<char>, body: Seq<u8>)
    ensures
        page_of(url, content_type, body) matches Ok(page) ==> page.url == url && !text::blank(
            page.markdown,
        ),
{
}

/// An article is its text, below its title where the text does not begin with that.
pub proof fn law_article_has_its_title(title: Seq<char>, content: Seq<char>)
    ensures
        text::ends(headed(title, content), text::trimmed(content)),
        text::trimmed(title).len() > 0 ==> text::starts(
            headed(title, content),
            "# "@ + text::trimmed(title),
        ),
        text::trimmed(title).len() == 0 ==> headed(title, content) == text::trimmed(content),
        text::starts(text::trimmed(content), "# "@ + text::trimmed(title)) ==> headed(
            title,
            content,
        ) == text::trimmed(content),
{
    let name = text::trimmed(title);
    let shown = text::trimmed(content);
    let page = headed(title, content);
    assert(shown.subrange(0, shown.len() as int) =~= shown);
    assert(page.subrange(page.len() - shown.len(), page.len() as int) =~= shown);
    if name.len() > 0 && !text::starts(shown, "# "@ + name) {
        assert(page.subrange(0, ("# "@ + name).len() as int) =~= "# "@ + name);
    }
}

/// The text of a page is that of its article where it is HTML, what it holds where it is text, and in a
/// fence of its language where it is JSON or XML; other pages are refused.
pub proof fn law_page_is_shown_by_its_kind(
    content_type: Seq<char>,
    content: Seq<char>,
    article: Result<Seq<char>, Seq<char>>,
)
    ensures
        ({
            let kind = media_type_of(content_type);
            let shown = page_markdown(content_type, content, article);
            &&& kind == "text/html"@ || kind == "application/xhtml+xml"@ ==> shown == article
            &&& kind == "application/json"@ ==> shown is Ok && text::starts(
                shown->Ok_0,
                "```json\n"@ + content,
            )
            &&& kind == "application/xml"@ || kind == "text/xml"@ ==> shown is Ok && text::starts(
                shown->Ok_0,
                "```xml\n"@ + content,
            )
            &&& kind == "text/plain"@ || kind == "text/markdown"@ ==> shown == Ok::<
                Seq<char>,
                Seq<char>,
            >(content)
        }),
{
    reveal_strlit("text/html");
    reveal_strlit("application/xhtml+xml");
    reveal_strlit("text/markdown");
    reveal_strlit("text/x-markdown");
    reveal_strlit("text/plain");
    reveal_strlit("application/json");
    reveal_strlit("application/xml");
    reveal_strlit("text/xml");
    assert("text/html"@.len() == 9 && "application/xhtml+xml"@.len() == 21);
    assert("text/markdown"@.len() == 13 && "text/x-markdown"@.len() == 15);
    assert("text/plain"@.len() == 10 && "application/json"@.len() == 16);
    assert("application/xml"@.len() == 15 && "text/xml"@.len() == 8);
    assert("application/xml"@[0] != "text/x-markdown"@[0]);
    let json = "```json\n"@ + content;
    let xml = "```xml\n"@ + content;
    assert((json + "\n```"@).subrange(0, json.len() as int) =~= json);
    assert((xml + "\n```"@).subrange(0, xml.len() as int) =~= xml);
}

/// A parameter names the encoding behind its equals sign, without white space and quotation marks around
/// it; a parameter of another name names none.
pub proof fn law_parameter_names_the_encoding(name: Seq<char>, label: Seq<char>)
    requires
        name.len() > 0,
        label.len() > 0,
        !name.contains('='),
        text::trimmed(name) == name,
        text::trimmed(label) == label,
        text::trimmed(name.push('=') + label) == name.push('=') + label,
        !quote(label[0]),
        !quote(label.last()),
    ensures
        text::same_ignoring_case(name, "charset"@) ==> parameter_charset(name.push('=') + label)
            == Some(label),
        !text::same_ignoring_case(name, "charset"@) ==> parameter_charset(
            name.push('=') + label,
        ) is None,
{
    let parameter = name.push('=') + label;
    assert forall|k: int| 0 <= k < name.len() implies parameter[k] != '=' by {
        assert(parameter[k] == name[k]);
        assert(name.contains(name[k]));
    }
    assert(parameter[name.len() as int] == '=');
    text::lemma_index_of_char_is(parameter, '=', name.len() as int);
    assert(parameter.take(name.len() as int) =~= name);
    assert(parameter.skip(name.len() as int + 1) =~= label);
}

/// The first parameter that names an encoding counts; where none does, a page is in UTF-8.
pub proof fn law_first_encoding_counts(parameters: Seq<Seq<char>>, i: int, at: int)
    requires
        0 <= i <= at < parameters.len(),
        parameter_charset(parameters[at]) is Some,
        forall|k: int| i <= k < at ==> parameter_charset(#[trigger] parameters[k]) is None,
    ensures
        charset_from(parameters, i) == parameter_charset(parameters[at]),
    decreases at - i,
{
    if i < at {
        assert(parameter_charset(parameters[i]) is None);
        law_first_encoding_counts(parameters, i + 1, at);
    }
}

/// A page is read where the decoder knows its encoding and found nothing malformed.
pub proof fn law_malformed_pages_are_refused(label: Seq<char>, content: Seq<char>, malformed: bool)
    ensures
        decoded_page(label, None) is Err,
        decoded_page(label, Some((content, true))) is Err,
        decoded_page(label, Some((content, false))) == Ok::<Seq<char>, Seq<char>>(content),
{
}

/// Other kinds of text are shown as they are, and what is no text is refused.
pub proof fn law_other_text_is_shown(media_type: Seq<char>)
    requires
        kind_of(media_type) is Unsupported || kind_of(media_type) is Plain,
    ensures
        kind_of(media_type) is Plain <==> text::starts(media_type, "text/"@),
{
    reveal_strlit("text/markdown");
    reveal_strlit("text/x-markdown");
    reveal_strlit("text/plain");
    reveal_strlit("text/");
    assert("text/markdown"@.subrange(0, 5) =~= "text/"@);
    assert("text/x-markdown"@.subrange(0, 5) =~= "text/"@);
    assert("text/plain"@.subrange(0, 5) =~= "text/"@);
}

} // verus!
