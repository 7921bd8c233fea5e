//! Link previews: finding an address in a text, deciding how to ask for
//! the page, and reading title and image out of it.

use crate::text::{
    char_is_whitespace, chars_of, contains, contains_text, has_prefix, is_whitespace, matches_at,
    same_text, starts_with, string_of, string_of_range, trim, trimmed,
};
use vstd::prelude::*;
use vstd::string::StringSliceAdditionalSpecFns;

verus! {

/// The most bytes of a page that are read for its metadata.
pub const MAX_PAGE_BYTES: usize = 524_288;

/// What a page says of itself.
#[derive(Debug, PartialEq, Eq)]
pub struct OgMetadata {
    pub title: String,
    pub image: String,
    pub url: String,
}

/// The mathematical value of an `OgMetadata`.
pub struct OgMetadataView {
    pub title: Seq<char>,
    pub image: Seq<char>,
    pub url: Seq<char>,
}

impl View for OgMetadata {
    type V = OgMetadataView;

    open spec fn view(&self) -> OgMetadataView {
        OgMetadataView { title: self.title@, image: self.image@, url: self.url@ }
    }
}

/// A `meta` element of a page: its attributes `property`, `name` and
/// `content`, each where the element has it.
#[derive(Debug, PartialEq, Eq)]
pub struct MetaTag {
    pub property: Option<String>,
    pub name: Option<String>,
    pub content: Option<String>,
}

/// The mathematical value of a `MetaTag`; an absent attribute counts as
/// empty.
pub struct MetaTagView {
    pub property: Seq<char>,
    pub name: Seq<char>,
    pub content: Seq<char>,
}

/// The text of an attribute; empty where it is absent.
pub open spec fn attribute_text(attribute: Option<String>) -> Seq<char> {
    match attribute {
        Some(text) => text@,
        None => Seq::empty(),
    }
}

impl View for MetaTag {
    type V = MetaTagView;

    open spec fn view(&self) -> MetaTagView {
        MetaTagView {
            property: attribute_text(self.property),
            name: attribute_text(self.name),
            content: attribute_text(self.content),
        }
    }
}

impl DeepView for MetaTag {
    type V = MetaTagView;

    open spec fn deep_view(&self) -> MetaTagView {
        self@
    }
}

/// The elements that the selector `tag` finds in the HTML text `page`, in
/// the order in which the selection yields them, each with its three
/// attributes named `first`, `second` and `third`.
pub uninterp spec fn html_elements(
    page: Seq<char>,
    tag: Seq<char>,
    first: Seq<char>,
    second: Seq<char>,
    third: Seq<char>,
) -> Seq<MetaTagView>;

/// The text inside the element that the selector `tag` yields first in the
/// HTML text `page`; `None` where it finds none.
pub uninterp spec fn html_first_text(page: Seq<char>, tag: Seq<char>) -> Option<Seq<char>>;

/// `scraper::Html::parse_document`, `scraper::Selector::parse` and
/// `Html::select`, with `Element::attr` read for three attribute names: the
/// elements found, in the order in which `select` yields them. A selector
/// that does not parse finds nothing. The result depends on the arguments
/// alone.
#[verifier::external_body]
pub(crate) fn select_elements(page: &str, tag: &str, first: &str, second: &str, third: &str) -> (found:
    Vec<MetaTag>)
    ensures
        found.deep_view() == html_elements(page@, tag@, first@, second@, third@),
{
    let document = scraper::Html::parse_document(page);
    let Ok(selector) = scraper::Selector::parse(tag) else {
        return Vec::new();
    };
    document.select(&selector).map(
        |e| MetaTag {
            property: e.value().attr(first).map(str::to_owned),
            name: e.value().attr(second).map(str::to_owned),
            content: e.value().attr(third).map(str::to_owned),
        },
    ).collect()
}

/// `scraper::Html::parse_document`, `scraper::Selector::parse` and
/// `Html::select`, with `ElementRef::text` collected for the first element
/// found. A selector that does not parse finds nothing. The result depends
/// on the arguments alone.
#[verifier::external_body]
pub(crate) fn first_element_text(page: &str, tag: &str) -> (text: Option<String>)
    ensures
        match text {
            Some(t) => html_first_text(page@, tag@) == Some(t@),
            None => html_first_text(page@, tag@) is None,
        },
{
    let document = scraper::Html::parse_document(page);
    let selector = scraper::Selector::parse(tag).ok()?;
    document.select(&selector).next().map(|e| e.text().collect::<String>())
}

/// The punctuation that is taken off the end of an address.
pub open spec fn is_trailing_punctuation(c: char) -> bool {
    c == '.' || c == ',' || c == ')' || c == ']' || c == ';' || c == '!' || c == '?'
}

/// Number of punctuation characters at the end of `s`.
pub open spec fn trailing_punctuation(s: Seq<char>) -> nat
    decreases s.len(),
{
    if s.len() > 0 && is_trailing_punctuation(s.last()) {
        1 + trailing_punctuation(s.drop_last())
    } else {
        0
    }
}

/// `s` without the punctuation at its end.
pub open spec fn without_trailing_punctuation(s: Seq<char>) -> Seq<char> {
    s.subrange(0, s.len() - trailing_punctuation(s))
}

/// Index of the first white-space character of `s` at or behind `from`, or
/// the length.
pub open spec fn word_end(s: Seq<char>, from: int) -> int
    decreases s.len() - from,
{
    if from >= s.len() {
        s.len() as int
    } else if is_whitespace(s[from]) {
        from
    } else {
        word_end(s, from + 1)
    }
}

/// The address that a word holds: a word that begins with `http://` or
/// `https://` and, without its trailing punctuation, is longer than ten
/// bytes, holds that word without the punctuation.
pub open spec fn url_of_word(word: Seq<char>) -> Option<Seq<char>> {
    let url = without_trailing_punctuation(word);
    if (has_prefix(word, "http://"@) || has_prefix(word, "https://"@)) && vstd::utf8::encode_utf8(
        url,
    ).len() > 10 {
        Some(url)
    } else {
        None
    }
}

/// The address of the first word that begins at or behind `from` and holds
/// one.
pub open spec fn first_url_from(s: Seq<char>, from: int) -> Option<Seq<char>>
    decreases s.len() - from,
{
    if from < 0 || from >= s.len() {
        None
    } else if !is_whitespace(s[from]) && (from == 0 || is_whitespace(s[from - 1])) {
        match url_of_word(s.subrange(from, word_end(s, from))) {
            Some(url) => Some(url),
            None => first_url_from(s, from + 1),
        }
    } else {
        first_url_from(s, from + 1)
    }
}

/// The first HTTP or HTTPS address in a text, where words are what white
/// space separates.
pub open spec fn first_url(s: Seq<char>) -> Option<Seq<char>> {
    first_url_from(s, 0)
}

proof fn lemma_word_end_is(s: Seq<char>, from: int, end: int)
    requires
        0 <= from <= end <= s.len(),
        forall|i: int| from <= i < end ==> !is_whitespace(#[trigger] s[i]),
        end < s.len() ==> is_whitespace(s[end]),
    ensures
        word_end(s, from) == end,
    decreases end - from,
{
    if from < end {
        lemma_word_end_is(s, from + 1, end);
    }
}

proof fn lemma_trailing_punctuation_is(s: Seq<char>, n: int)
    requires
        0 <= n <= s.len(),
        forall|i: int| s.len() - n <= i < s.len() ==> is_trailing_punctuation(#[trigger] s[i]),
        n < s.len() ==> !is_trailing_punctuation(s[s.len() - n - 1]),
    ensures
        trailing_punctuation(s) == n,
    decreases s.len(),
{
    if n > 0 {
        let t = s.drop_last();
        assert(is_trailing_punctuation(s[s.len() - 1]));
        assert forall|i: int| t.len() - (n - 1) <= i < t.len() implies is_trailing_punctuation(
            #[trigger] t[i],
        ) by {
            assert(t[i] == s[i]);
        }
        lemma_trailing_punctuation_is(t, n - 1);
    }
}

proof fn lemma_no_word_begins_inside(s: Seq<char>, from: int, k: int, end: int)
    requires
        0 <= from < k <= end <= s.len(),
        forall|i: int| from <= i < end ==> !is_whitespace(#[trigger] s[i]),
    ensures
        first_url_from(s, k) == first_url_from(s, end),
    decreases end - k,
{
    if k < end {
        assert(!is_whitespace(s[k - 1]));
        lemma_no_word_begins_inside(s, from, k + 1, end);
    }
}

fn is_punctuation(c: char) -> (b: bool)
    ensures
        b == is_trailing_punctuation(c),
{
    c == '.' || c == ',' || c == ')' || c == ']' || c == ';' || c == '!' || c == '?'
}

fn url_in_word(v: &Vec<char>, from: usize, end: usize) -> (url: Option<String>)
    requires
        from <= end <= v.len(),
    ensures
        match url {
            Some(u) => url_of_word(v@.subrange(from as int, end as int)) == Some(u@),
            None => url_of_word(v@.subrange(from as int, end as int)) is None,
        },
{
    let ghost word = v@.subrange(from as int, end as int);
    let http = chars_of("http://");
    let https = chars_of("https://");
    let word_vec = chars_of(string_of_range(v, from, end).as_str());
    assert(word_vec@ == word);
    let begins = matches_at(&word_vec, &http, 0) || matches_at(&word_vec, &https, 0);
    let mut cut: usize = word_vec.len();
    while cut > 0 && is_punctuation(word_vec[cut - 1])
        invariant
            cut <= word_vec.len(),
            forall|i: int|
                cut <= i < word_vec.len() ==> is_trailing_punctuation(#[trigger] word_vec@[i]),
        decreases cut,
    {
        cut -= 1;
    }
    proof {
        lemma_trailing_punctuation_is(word_vec@, word_vec.len() - cut);
    }
    let candidate = string_of_range(&word_vec, 0, cut);
    let bytes = candidate.as_str().as_bytes();
    if begins && bytes.len() > 10 {
        Some(candidate)
    } else {
        None
    }
}

/// The first HTTP or HTTPS address in a text.
pub fn extract_first_url(text: &str) -> (url: Option<String>)
    ensures
        match url {
            Some(u) => first_url(text@) == Some(u@),
            None => first_url(text@) is None,
        },
{
    let v = chars_of(text);
    let mut from: usize = 0;
    while from < v.len()
        invariant
            from <= v.len(),
            v@ == text@,
            first_url(v@) == first_url_from(v@, from as int),
            from == 0 || from == v.len() || is_whitespace(v@[from - 1]) || is_whitespace(
                v@[from as int],
            ),
        decreases v.len() - from,
    {
        if char_is_whitespace(v[from]) {
            from += 1;
        } else {
            let mut end: usize = from;
            while end < v.len() && !char_is_whitespace(v[end])
                invariant
                    from <= end <= v.len(),
                    forall|i: int| from <= i < end ==> !is_whitespace(#[trigger] v@[i]),
                decreases v.len() - end,
            {
                end += 1;
            }
            proof {
                lemma_word_end_is(v@, from as int, end as int);
                lemma_no_word_begins_inside(v@, from as int, from as int + 1, end as int);
            }
            match url_in_word(&v, from, end) {
                Some(url) => {
                    return Some(url);
                },
                None => {},
            }
            from = end;
        }
    }
    None
}

/// `s` with every occurrence of `from` replaced by `to`, found from left to
/// right without overlap. An empty `from` replaces nothing.
pub open spec fn replaced(s: Seq<char>, from: Seq<char>, to: Seq<char>) -> Seq<char>
    decreases s.len(),
{
    if from.len() == 0 || s.len() < from.len() {
        s
    } else if s.subrange(0, from.len() as int) == from {
        to + replaced(s.subrange(from.len() as int, s.len() as int), from, to)
    } else {
        seq![s[0]] + replaced(s.subrange(1, s.len() as int), from, to)
    }
}

/// Replaces every occurrence of `from` in `s` by `to`.
pub fn replace_all(s: &str, from: &str, to: &str) -> (r: String)
    ensures
        r@ == replaced(s@, from@, to@),
{
    let v = chars_of(s);
    let f = chars_of(from);
    let t = chars_of(to);
    if f.len() == 0 {
        return s.to_owned();
    }
    let mut out: Vec<char> = Vec::new();
    let mut i: usize = 0;
    assert(v@.subrange(0, v.len() as int) =~= v@);
    while i < v.len()
        invariant
            i <= v.len(),
            f.len() > 0,
            f@ == from@,
            t@ == to@,
            replaced(v@, f@, t@) == out@ + replaced(v@.subrange(i as int, v.len() as int), f@, t@),
        decreases v.len() - i,
    {
        let ghost rest = v@.subrange(i as int, v.len() as int);
        if matches_at(&v, &f, i) {
            proof {
                assert(rest.subrange(0, f.len() as int) =~= v@.subrange(i as int, i + f.len()));
                assert(rest.subrange(f.len() as int, rest.len() as int) =~= v@.subrange(
                    i + f.len(),
                    v.len() as int,
                ));
            }
            let ghost before = out@;
            let mut k: usize = 0;
            while k < t.len()
                invariant
                    k <= t.len(),
                    out@ == before + t@.subrange(0, k as int),
                decreases t.len() - k,
            {
                out.push(t[k]);
                assert(t@.subrange(0, k as int + 1) =~= t@.subrange(0, k as int).push(t@[k as int]));
                k += 1;
            }
            assert(t@.subrange(0, t.len() as int) =~= t@);
            assert(before + t@ + replaced(
                v@.subrange(i + f.len(), v.len() as int),
                f@,
                t@,
            ) =~= before + (t@ + replaced(v@.subrange(i + f.len(), v.len() as int), f@, t@)));
            i += f.len();
        } else {
            proof {
                if rest.len() >= f.len() {
                    assert(rest.subrange(0, f.len() as int) =~= v@.subrange(i as int, i + f.len()));
                }
                assert(rest.subrange(1, rest.len() as int) =~= v@.subrange(
                    i as int + 1,
                    v.len() as int,
                ));
                assert(rest[0] == v@[i as int]);
            }
            let ghost before = out@;
            if v.len() - i < f.len() {
                // what is left is shorter than the pattern: it is copied as it is
                proof {
                    lemma_replaced_short(rest, f@, t@);
                }
                let mut k: usize = i;
                while k < v.len()
                    invariant
                        i <= k <= v.len(),
                        out@ == before + v@.subrange(i as int, k as int),
                    decreases v.len() - k,
                {
                    out.push(v[k]);
                    assert(v@.subrange(i as int, k as int + 1) =~= v@.subrange(
                        i as int,
                        k as int,
                    ).push(v@[k as int]));
                    k += 1;
                }
                proof {
                    let tail = v@.subrange(v.len() as int, v.len() as int);
                    assert(tail =~= Seq::<char>::empty());
                    lemma_replaced_short(tail, f@, t@);
                    assert(out@ + replaced(tail, f@, t@) =~= before + rest);
                }
                i = v.len();
            } else {
                out.push(v[i]);
                assert(before.push(v@[i as int]) + replaced(
                    v@.subrange(i as int + 1, v.len() as int),
                    f@,
                    t@,
                ) =~= before + (seq![v@[i as int]] + replaced(
                    v@.subrange(i as int + 1, v.len() as int),
                    f@,
                    t@,
                )));
                i += 1;
            }
        }
    }
    proof {
        let tail = v@.subrange(v.len() as int, v.len() as int);
        assert(tail =~= Seq::<char>::empty());
        lemma_replaced_short(tail, f@, t@);
        assert(out@ + tail =~= out@);
    }
    string_of(&out)
}

proof fn lemma_replaced_short(s: Seq<char>, from: Seq<char>, to: Seq<char>)
    requires
        s.len() < from.len(),
    ensures
        replaced(s, from, to) == s,
{
}

/// The user agent under which pages of Twitter and X are asked for.
pub open spec fn card_agent() -> Seq<char> {
    "Mozilla/5.0 (compatible; TelegramBot/1.0; +https://core.telegram.org/bots)"@
}

/// The user agent under which every other page is asked for.
pub open spec fn crawler_agent() -> Seq<char> {
    "Mozilla/5.0 (compatible; Googlebot/2.1; +http://www.google.com/bot.html)"@
}

/// The address under which the page of `url` is asked for: addresses of
/// Twitter and of `www.x.com` are turned into addresses of `x.com`.
pub open spec fn fetch_url_of(url: Seq<char>) -> Seq<char> {
    if has_prefix(url, "https://twitter.com/"@) {
        replaced(url, "https://twitter.com/"@, "https://x.com/"@)
    } else if has_prefix(url, "https://x.com/"@) {
        url
    } else if has_prefix(url, "https://www.twitter.com/"@) {
        replaced(url, "https://www.twitter.com/"@, "https://x.com/"@)
    } else if has_prefix(url, "https://www.x.com/"@) {
        replaced(url, "https://www.x.com/"@, "https://x.com/"@)
    } else {
        url
    }
}

/// The user agent under which the page of `url` is asked for.
pub open spec fn user_agent_of(url: Seq<char>) -> Seq<char> {
    if has_prefix(url, "https://twitter.com/"@) || has_prefix(url, "https://x.com/"@)
        || has_prefix(url, "https://www.twitter.com/"@) || has_prefix(url, "https://www.x.com/"@) {
        card_agent()
    } else {
        crawler_agent()
    }
}

/// How the page of an address is asked for.
#[derive(Debug, PartialEq, Eq)]
pub struct PreviewRequest {
    pub fetch_url: String,
    pub user_agent: &'static str,
}

/// Decides how the page behind `url` is asked for.
pub fn preview_request(url: &str) -> (request: PreviewRequest)
    ensures
        request.fetch_url@ == fetch_url_of(url@),
        request.user_agent@ == user_agent_of(url@),
{
    let card = "Mozilla/5.0 (compatible; TelegramBot/1.0; +https://core.telegram.org/bots)";
    let crawler = "Mozilla/5.0 (compatible; Googlebot/2.1; +http://www.google.com/bot.html)";
    if starts_with(url, "https://twitter.com/") {
        PreviewRequest {
            fetch_url: replace_all(url, "https://twitter.com/", "https://x.com/"),
            user_agent: card,
        }
    } else if starts_with(url, "https://x.com/") {
        PreviewRequest { fetch_url: url.to_owned(), user_agent: card }
    } else if starts_with(url, "https://www.twitter.com/") {
        PreviewRequest {
            fetch_url: replace_all(url, "https://www.twitter.com/", "https://x.com/"),
            user_agent: card,
        }
    } else if starts_with(url, "https://www.x.com/") {
        PreviewRequest {
            fetch_url: replace_all(url, "https://www.x.com/", "https://x.com/"),
            user_agent: card,
        }
    } else {
        PreviewRequest { fetch_url: url.to_owned(), user_agent: crawler }
    }
}

/// Whether a content type announces an HTML page.
pub open spec fn announces_html(content_type: Seq<char>) -> bool {
    contains_text(content_type, "text/html"@) || contains_text(content_type, "application/xhtml"@)
}

/// Whether a content type announces an HTML page.
pub fn is_html(content_type: &str) -> (html: bool)
    ensures
        html == announces_html(content_type@),
{
    contains(content_type, "text/html") || contains(content_type, "application/xhtml")
}

/// The content of the last tag that `wanted` picks and that has content;
/// empty when there is none.
pub open spec fn last_content(tags: Seq<MetaTagView>, wanted: spec_fn(MetaTagView) -> bool) -> Seq<
    char,
>
    decreases tags.len(),
{
    if tags.len() == 0 {
        Seq::empty()
    } else if tags.last().content.len() > 0 && wanted(tags.last()) {
        tags.last().content
    } else {
        last_content(tags.drop_last(), wanted)
    }
}

/// Tags with the given `property`.
pub open spec fn with_property(property: Seq<char>) -> spec_fn(MetaTagView) -> bool {
    |t: MetaTagView| t.property == property
}

/// Tags that name the image of a Twitter card.
pub open spec fn names_card_image() -> spec_fn(MetaTagView) -> bool {
    |t: MetaTagView| t.name == "twitter:image"@ || t.name == "twitter:image:src"@
}

/// Tags that name the title of a Twitter card.
pub open spec fn names_card_title() -> spec_fn(MetaTagView) -> bool {
    |t: MetaTagView| t.name == "twitter:title"@
}

/// The first of two texts that is not empty.
pub open spec fn or_else(first: Seq<char>, second: Seq<char>) -> Seq<char> {
    if first.len() > 0 {
        first
    } else {
        second
    }
}

/// What a page says of itself, read from its `meta` tags and its title.
///
/// The title is the Open Graph title, else that of the Twitter card, else
/// the trimmed title of the page; without any there is no metadata. The
/// image is that of Open Graph, else that of the card. The address is that
/// of Open Graph, else the address asked for.
pub open spec fn metadata_of(url: Seq<char>, page_title: Option<Seq<char>>, tags: Seq<MetaTagView>) -> Option<
    OgMetadataView,
> {
    let title = or_else(
        or_else(
            last_content(tags, with_property("og:title"@)),
            last_content(tags, names_card_title()),
        ),
        match page_title {
            Some(t) => trimmed(t),
            None => Seq::empty(),
        },
    );
    if title.len() == 0 {
        None
    } else {
        Some(
            OgMetadataView {
                title,
                image: or_else(
                    last_content(tags, with_property("og:image"@)),
                    last_content(tags, names_card_image()),
                ),
                url: or_else(last_content(tags, with_property("og:url"@)), url),
            },
        )
    }
}

fn attribute_is(attribute: &Option<String>, wanted: &str) -> (r: bool)
    ensures
        r == (attribute_text(*attribute) == wanted@),
{
    match attribute {
        Some(text) => same_text(text.as_str(), wanted),
        None => {
            if wanted.is_empty() {
                assert(wanted@ =~= Seq::<char>::empty());
            }
            wanted.is_empty()
        },
    }
}

/// Reads the metadata of a page from its `meta` tags and its title.
pub fn select_metadata(url: &str, page_title: Option<&str>, tags: &Vec<MetaTag>) -> (metadata:
    Option<OgMetadata>)
    ensures
        match metadata {
            Some(m) => metadata_of(
                url@,
                match page_title {
                    Some(t) => Some(t@),
                    None => None,
                },
                tags.deep_view(),
            ) == Some(m@),
            None => metadata_of(
                url@,
                match page_title {
                    Some(t) => Some(t@),
                    None => None,
                },
                tags.deep_view(),
            ) is None,
        },
{
    let ghost all = tags.deep_view();
    let mut og_title = String::new();
    let mut og_image = String::new();
    let mut og_url = String::new();
    let mut card_title = String::new();
    let mut card_image = String::new();
    let mut i: usize = 0;
    while i < tags.len()
        invariant
            i <= tags.len(),
            all == tags.deep_view(),
            og_title@ == last_content(all.take(i as int), with_property("og:title"@)),
            og_image@ == last_content(all.take(i as int), with_property("og:image"@)),
            og_url@ == last_content(all.take(i as int), with_property("og:url"@)),
            card_title@ == last_content(all.take(i as int), names_card_title()),
            card_image@ == last_content(all.take(i as int), names_card_image()),
        decreases tags.len() - i,
    {
        let tag = &tags[i];
        proof {
            assert(all.take(i as int + 1).drop_last() =~= all.take(i as int));
            assert(all.take(i as int + 1).last() == all[i as int]);
            assert(tag@ == all[i as int]);
        }
        match &tag.content {
            Some(content) => {
                if !content.is_empty() {
                    if attribute_is(&tag.property, "og:title") {
                        og_title = content.clone();
                    }
                    if attribute_is(&tag.property, "og:image") {
                        og_image = content.clone();
                    }
                    if attribute_is(&tag.property, "og:url") {
                        og_url = content.clone();
                    }
                    if attribute_is(&tag.name, "twitter:title") {
                        card_title = content.clone();
                    }
                    if attribute_is(&tag.name, "twitter:image") || attribute_is(
                        &tag.name,
                        "twitter:image:src",
                    ) {
                        card_image = content.clone();
                    }
                }
            },
            None => {},
        }
        i += 1;
    }
    assert(all.take(tags.len() as int) =~= all);
    let mut title = if !og_title.is_empty() {
        og_title
    } else {
        card_title
    };
    if title.is_empty() {
        title = match page_title {
            Some(t) => trim(t),
            None => String::new(),
        };
    }
    if title.is_empty() {
        return None;
    }
    let image = if !og_image.is_empty() {
        og_image
    } else {
        card_image
    };
    let address = if !og_url.is_empty() {
        og_url
    } else {
        url.to_owned()
    };
    Some(OgMetadata { title, image, url: address })
}

/// The part of a page that is read: the whole page, or, of a page longer
/// than `MAX_PAGE_BYTES`, its longest beginning within that many bytes that
/// ends between two characters.
pub open spec fn is_readable_part(page: Seq<u8>, part: Seq<u8>) -> bool {
    if page.len() <= MAX_PAGE_BYTES {
        part == page
    } else {
        &&& part.len() <= MAX_PAGE_BYTES
        &&& part == page.subrange(0, part.len() as int)
        &&& vstd::utf8::is_char_boundary(page, part.len() as int)
        &&& forall|k: int|
            part.len() < k <= MAX_PAGE_BYTES ==> !vstd::utf8::is_char_boundary(page, k)
    }
}

/// The part of a page that is read for its metadata.
pub fn readable_part(page: &str) -> (part: &str)
    ensures
        is_readable_part(page.spec_bytes(), part.spec_bytes()),
{
    let bytes = page.as_bytes();
    if bytes.len() <= MAX_PAGE_BYTES {
        return page;
    }
    let mut cut: usize = MAX_PAGE_BYTES;
    proof {
        vstd::utf8::encode_utf8_valid_utf8(page@);
        vstd::utf8::is_char_boundary_start_end_of_seq(page.spec_bytes());
    }
    while !page.is_char_boundary(cut)
        invariant
            cut <= MAX_PAGE_BYTES,
            MAX_PAGE_BYTES < page.spec_bytes().len(),
            vstd::utf8::is_char_boundary(page.spec_bytes(), 0),
            forall|k: int|
                cut < k <= MAX_PAGE_BYTES ==> !vstd::utf8::is_char_boundary(page.spec_bytes(), k),
        decreases cut,
    {
        cut -= 1;
    }
    let (part, _) = page.split_at(cut);
    part
}

/// Reads the metadata of the page `page` that was fetched for `url`.
pub fn read_metadata(url: &str, page: &str) -> (metadata: Option<OgMetadata>)
    ensures
        exists|part: Seq<char>|
            {
                &&& is_readable_part(page.spec_bytes(), vstd::utf8::encode_utf8(part))
                &&& match metadata {
                    Some(m) => metadata_of(
                        url@,
                        html_first_text(part, "title"@),
                        html_elements(part, "meta"@, "property"@, "name"@, "content"@),
                    ) == Some(m@),
                    None => metadata_of(
                        url@,
                        html_first_text(part, "title"@),
                        html_elements(part, "meta"@, "property"@, "name"@, "content"@),
                    ) is None,
                }
            },
{
    let part = readable_part(page);
    let tags = select_elements(part, "meta", "property", "name", "content");
    let title = first_element_text(part, "title");
    let metadata = match &title {
        Some(t) => select_metadata(url, Some(t.as_str()), &tags),
        None => select_metadata(url, None, &tags),
    };
    assert(is_readable_part(page.spec_bytes(), vstd::utf8::encode_utf8(part@)));
    metadata
}

} // verus!
