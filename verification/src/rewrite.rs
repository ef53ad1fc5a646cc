use vstd::prelude::*;

verus! {

/// The reserved prefix that marks a path as a static asset.
pub open spec fn static_prefix() -> Seq<char> {
    "/static"@
}

pub open spec fn opt_view(o: Option<String>) -> Option<Seq<char>> {
    match o {
        Some(s) => Some(s@),
        None => None,
    }
}

/// Whether `s` begins with `p`.
pub open spec fn spec_starts_with(s: Seq<char>, p: Seq<char>) -> bool {
    s.len() >= p.len() && s.subrange(0, p.len() as int) == p
}

/// The URL-rewriting rule, in precedence order: a path carrying the static
/// prefix goes to the CDN base when one is configured; otherwise a
/// root-relative path is prefixed with the site base when one is configured;
/// anything else is left alone (`None`).
pub open spec fn rewritten_url(
    v: Seq<char>,
    site: Option<Seq<char>>,
    cdn: Option<Seq<char>>,
) -> Option<Seq<char>> {
    if spec_starts_with(v, static_prefix()) && cdn is Some {
        Some(cdn->0 + v.subrange(static_prefix().len() as int, v.len() as int))
    } else if v.len() >= 1 && v[0] == '/' && site is Some {
        Some(site->0 + v)
    } else {
        None
    }
}

/// Whether the string `s` begins with the string `p`, character for character.
pub fn starts_with_str(s: &str, p: &str) -> (r: bool)
    ensures
        r == spec_starts_with(s@, p@),
{
    let s_len = s.unicode_len();
    let p_len = p.unicode_len();
    if s_len < p_len {
        return false;
    }
    let mut i: usize = 0;
    while i < p_len
        invariant
            0 <= i <= p_len,
            p_len == p@.len(),
            s_len == s@.len(),
            s_len >= p_len,
            forall|j: int| 0 <= j < i ==> s@[j] == p@[j],
        decreases p_len - i,
    {
        if s.get_char(i) != p.get_char(i) {
            return false;
        }
        i += 1;
    }
    proof {
        assert(s@.subrange(0, p@.len() as int) =~= p@);
    }
    true
}

/// Whether two strings hold the same characters.
pub fn str_eq(a: &str, b: &str) -> (r: bool)
    ensures
        r == (a@ == b@),
{
    let r = a.unicode_len() == b.unicode_len() && starts_with_str(a, b);
    proof {
        if r {
            assert(a@ =~= b@);
        }
        if a@ == b@ {
            assert(a@.subrange(0, b@.len() as int) =~= b@);
        }
    }
    r
}

/// Apply the rewrite rule to one attribute value. `None` means the value is
/// left as it stands.
pub fn rewrite_url_value(v: &str, site_url: &Option<String>, cdn_url: &Option<String>) -> (r: Option<
    String,
>)
    ensures
        opt_view(r) == rewritten_url(v@, opt_view(*site_url), opt_view(*cdn_url)),
{
    proof {
        reveal_strlit("/static");
    }
    if starts_with_str(v, "/static") {
        if let Some(cdn) = cdn_url {
            let rest = v.substring_char(7, v.unicode_len());
            return Some(cdn.clone().concat(rest));
        }
    }
    if v.unicode_len() >= 1 && v.get_char(0) == '/' {
        if let Some(site) = site_url {
            return Some(site.clone().concat(v));
        }
    }
    None
}

/// A path that carries the static prefix goes to the CDN base exactly; with
/// neither base configured it is left unchanged.
pub proof fn lemma_static_prefix_rewrite(v: Seq<char>, site: Option<Seq<char>>, cdn: Seq<char>)
    requires
        spec_starts_with(v, static_prefix()),
    ensures
        rewritten_url(v, site, Some(cdn)) == Some(
            cdn + v.subrange(static_prefix().len() as int, v.len() as int),
        ),
        rewritten_url(v, None, None) is None,
{
}

/// A root-relative path that does not carry the static prefix is prefixed with
/// the site base exactly; values that do not begin with the path separator
/// (absolute URLs, purely relative paths) are never modified.
pub proof fn lemma_root_relative_rewrite(v: Seq<char>, site: Seq<char>, cdn: Option<Seq<char>>)
    ensures
        v.len() >= 1 && v[0] == '/' && !spec_starts_with(v, static_prefix()) ==> rewritten_url(
            v,
            Some(site),
            cdn,
        ) == Some(site + v),
        !(v.len() >= 1 && v[0] == '/') ==> rewritten_url(v, Some(site), cdn) is None,
{
    reveal_strlit("/static");
    if !(v.len() >= 1 && v[0] == '/') {
        if spec_starts_with(v, static_prefix()) {
            assert(v[0] == static_prefix()[0]);
            assert(false);
        }
    }
}

/// Rewriting is idempotent: when neither base is empty or begins with the
/// path separator, a value that one pass has rewritten is left alone by a
/// second pass with the same bases. A base that begins with the separator is
/// excluded: it makes the rewritten value root-relative again, so a second
/// pass rewrites it once more (when the site base carries the static prefix
/// itself, even by the static rule).
pub proof fn lemma_rewrite_idempotent(
    v: Seq<char>,
    site: Option<Seq<char>>,
    cdn: Option<Seq<char>>,
    r: Seq<char>,
)
    requires
        site is Some ==> site->0.len() >= 1 && site->0[0] != '/',
        cdn is Some ==> cdn->0.len() >= 1 && cdn->0[0] != '/',
        rewritten_url(v, site, cdn) == Some(r),
    ensures
        rewritten_url(r, site, cdn) is None,
{
    reveal_strlit("/static");
    assert(r[0] != '/');
    if spec_starts_with(r, static_prefix()) {
        assert(r[0] == static_prefix()[0]);
    }
}

/// Why a whole-document rewrite failed.
#[derive(Debug, Clone, Copy, PartialEq, Eq, Structural)]
pub enum RewriteError {
    /// The rewriter could not be set up or refused the document (malformed
    /// HTML, or an attribute could not be replaced).
    Malformed,
}

/// What the streaming rewrite of a whole document yields: a function of the
/// raw bytes and the two configured base URLs alone.
pub uninterp spec fn html_rewritten(
    raw: Seq<u8>,
    site: Option<Seq<char>>,
    cdn: Option<Seq<char>>,
) -> Seq<u8>;

/// Whether the streaming rewriter accepts a document: with the fixed handler
/// set this too is a function of the raw bytes and the two base URLs alone.
pub uninterp spec fn html_rewrite_accepted(
    raw: Seq<u8>,
    site: Option<Seq<char>>,
    cdn: Option<Seq<char>>,
) -> bool;

/// The rewriter settings under construction. Verus cannot take lol_html's
/// `Settings` type itself (its handler-types parameter is bound by an outside
/// trait), so the value is held opaquely.
#[verifier::external_body]
struct RewriteSettings {
    inner: lol_html::Settings<'static, 'static, lol_html::LocalHandlerTypes>,
}

/// Relies on lol_html's Settings::new: fresh settings with no handlers.
#[verifier::external_body]
fn settings_new() -> RewriteSettings {
    RewriteSettings { inner: lol_html::Settings::new() }
}

/// Relies on lol_html's append_element_content_handler: registers, for the
/// elements the selector matches, a handler that replaces the named attribute
/// with what `rewrite_url_value` yields for it.
#[verifier::external_body]
fn with_attr_handler(
    s: RewriteSettings,
    sel: &str,
    attr: &'static str,
    site: Option<String>,
    cdn: Option<String>,
) -> Result<RewriteSettings, RewriteError> {
    let sel = sel.parse::<lol_html::Selector>().map_err(|_| RewriteError::Malformed)?;
    Ok(RewriteSettings { inner: s.inner.append_element_content_handler((
        std::borrow::Cow::Owned(sel),
        lol_html::ElementContentHandlers::default().element(
            move |el: &mut lol_html::html_content::Element| {
                if let Some(v) = el.get_attribute(attr) {
                    if let Some(n) = rewrite_url_value(&v, &site, &cdn) {
                        el.set_attribute(attr, &n)?;
                    }
                }
                Ok(())
            },
        ),
    )) })
}

/// Relies on lol_html's append_element_content_handler: registers, for the
/// elements the selector matches, a handler that replaces the style attribute
/// with what `rewrite_style_value` yields for it.
#[verifier::external_body]
fn with_style_handler(
    s: RewriteSettings,
    sel: &str,
    site: Option<String>,
    cdn: Option<String>,
) -> Result<RewriteSettings, RewriteError> {
    let sel = sel.parse::<lol_html::Selector>().map_err(|_| RewriteError::Malformed)?;
    Ok(RewriteSettings { inner: s.inner.append_element_content_handler((
        std::borrow::Cow::Owned(sel),
        lol_html::ElementContentHandlers::default().element(
            move |el: &mut lol_html::html_content::Element| {
                if let Some(v) = el.get_attribute("style") {
                    if let Some(n) = crate::style::rewrite_style_value(&v, &site, &cdn) {
                        el.set_attribute("style", &n)?;
                    }
                }
                Ok(())
            },
        ),
    )) })
}

/// Relies on lol_html's HtmlRewriter: streams the bytes through the handlers
/// in one forward pass and collects the output.
#[verifier::external_body]
fn run_rewriter(raw: &[u8], s: RewriteSettings) -> Result<Vec<u8>, RewriteError> {
    let mut out: Vec<u8> = Vec::new();
    let mut rw = lol_html::HtmlRewriter::new(s.inner, |c: &[u8]| out.extend_from_slice(c));
    if rw.write(raw).is_err() {
        return Err(RewriteError::Malformed);
    }
    if rw.end().is_err() {
        return Err(RewriteError::Malformed);
    }
    Ok(out)
}

/// Relies on lol_html's streaming rewriter with the fixed handler set below:
/// the handlers call only `rewrite_url_value` and `rewrite_style_value` and
/// the selectors are constant and valid, so both what comes out and whether
/// the rewrite is accepted are functions of the bytes and the two base URLs
/// alone.
#[verifier::external_body]
fn run_base_url_rewrite(
    raw: &[u8],
    site_url: &Option<String>,
    cdn_url: &Option<String>,
) -> (r: Result<Vec<u8>, RewriteError>)
    ensures
        r is Ok == html_rewrite_accepted(raw@, opt_view(*site_url), opt_view(*cdn_url)),
        r matches Ok(o) ==> o@ == html_rewritten(raw@, opt_view(*site_url), opt_view(*cdn_url)),
{
    let mut s = settings_new();
    s = with_attr_handler(s, "a[href], link[rel=stylesheet][href]", "href", site_url.clone(), cdn_url.clone())?;
    s = with_attr_handler(s, "script[src], iframe[src], img[src], audio[src], video[src]", "src", site_url.clone(), cdn_url.clone())?;
    s = with_style_handler(s, "body>div.bg-primary.text-main", site_url.clone(), cdn_url.clone())?;
    s = with_attr_handler(s, "meta[content]", "content", site_url.clone(), cdn_url.clone())?;
    run_rewriter(raw, s)
}

/// Rewrite root-relative URLs in `raw_html` against the configured site and
/// CDN bases, in one streaming pass over the fixed set of element/attribute
/// pairs and the inline background-image style. Whether the document is
/// accepted, and what comes out when it is, depend on the bytes and the two
/// bases alone.
pub fn rewrite_html_base_url(
    raw_html: &[u8],
    site_url: &Option<String>,
    cdn_url: &Option<String>,
) -> (r: Result<Vec<u8>, RewriteError>)
    ensures
        r is Ok == html_rewrite_accepted(raw_html@, opt_view(*site_url), opt_view(*cdn_url)),
        r matches Ok(o) ==> o@ == html_rewritten(raw_html@, opt_view(*site_url), opt_view(*cdn_url)),
{
    run_base_url_rewrite(raw_html, site_url, cdn_url)
}

} // verus!
