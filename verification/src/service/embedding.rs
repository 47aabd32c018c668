//! HTML to plain text for the text embedding model: formula `alt` texts are
//! kept, pictures become a placeholder, markup is dropped, the common
//! character entities are decoded, and white space is collapsed.
use vstd::prelude::*;

use crate::text::{chars_of, replace_all_literal, replaced, trim_chars, trimmed};

verus! {

/// The dimension of the text vectors (BGE-small-zh).
pub const TEXT_DIM: usize = 512;

/// The dimension of the image vectors (Chinese-CLIP).
pub const IMAGE_DIM: usize = 768;

/// An `<img>` tag with an `alt` attribute; group 1 is the `alt` text.
pub const IMG_ALT_PATTERN: &'static str = "<img[^>]+alt\\s*=\\s*\"([^\"]*)\"[^>]*/?>";

/// Any `<img>` tag.
pub const IMG_PATTERN: &'static str = "<img[^>]*/?>";

/// A `<span>` whose class mentions `math`; group 1 is its content.
pub const MATH_PATTERN: &'static str = "<span[^>]+class\\s*=\\s*\"[^\"]*math[^\"]*\"[^>]*>([\\s\\S]*?)</span>";

/// A `<style>` element with its content.
pub const STYLE_PATTERN: &'static str = "<style[^>]*>[\\s\\S]*?</style>";

/// A `<script>` element with its content.
pub const SCRIPT_PATTERN: &'static str = "<script[^>]*>[\\s\\S]*?</script>";

/// An opening or closing block-level tag.
pub const BLOCK_PATTERN: &'static str = "<(/?)(div|p|br|li|tr|h[1-6])[^>]*>";

/// Any remaining tag.
pub const TAG_PATTERN: &'static str = "<[^>]*>";

/// A run of white space.
pub const WS_PATTERN: &'static str = "\\s+";

// ---------------------------------------------------------------------------
// The regular-expression engine (the `regex` crate)
// ---------------------------------------------------------------------------

/// Whether `regex::Regex::new` accepts `pattern`.
pub uninterp spec fn regex_compiles(pattern: Seq<char>) -> bool;

/// What `Regex::replace_all(text, replacement)` returns for the regex compiled
/// from `pattern`, where `$n` in `replacement` stands for capture group `n`.
pub uninterp spec fn regex_replace_all(
    pattern: Seq<char>,
    text: Seq<char>,
    replacement: Seq<char>,
) -> Seq<char>;

/// What `Regex::replace_all(text, f)` returns for the regex compiled from
/// `pattern` when `f` turns each match into `img_placeholder` of its first
/// capture group (the empty text when that group did not take part).
pub uninterp spec fn regex_replace_by_alt(pattern: Seq<char>, text: Seq<char>) -> Seq<char>;

/// Compiles `pattern` with `regex::Regex::new` and, when it compiles, returns
/// `Regex::replace_all(text, replacement)`.
/// Trusted: `None` exactly when the pattern does not compile, and otherwise the
/// named replacement result; what that result is, the regex crate decides.
#[verifier::external_body]
fn regex_replace(pattern: &str, text: &str, replacement: &str) -> (r: Option<String>)
    ensures
        r is Some <==> regex_compiles(pattern@),
        r matches Some(out) ==> out@ == regex_replace_all(pattern@, text@, replacement@),
{
    match regex::Regex::new(pattern) {
        Ok(re) => Some(re.replace_all(text, replacement).into_owned()),
        Err(_) => None,
    }
}

/// Compiles `pattern` with `regex::Regex::new` and, when it compiles, returns
/// `Regex::replace_all` with a closure that hands the first capture group to
/// the verified `img_placeholder`.
/// Trusted: `None` exactly when the pattern does not compile, and otherwise the
/// named replacement result.
#[verifier::external_body]
fn regex_replace_img(pattern: &str, text: &str) -> (r: Option<String>)
    ensures
        r is Some <==> regex_compiles(pattern@),
        r matches Some(out) ==> out@ == regex_replace_by_alt(pattern@, text@),
{
    match regex::Regex::new(pattern) {
        Ok(re) => Some(
            re.replace_all(
                text,
                |caps: &regex::Captures| img_placeholder(caps.get(1).map_or("", |m| m.as_str())),
            ).into_owned(),
        ),
        Err(_) => None,
    }
}

// ---------------------------------------------------------------------------
// The cleaning steps
// ---------------------------------------------------------------------------

/// The text that stands for an `<img>` with the given `alt`: a picture
/// placeholder when `alt` is empty, the formula text otherwise.
pub open spec fn placeholder_for(alt: Seq<char>) -> Seq<char> {
    if alt.len() == 0 {
        "[图片]"@
    } else {
        "[公式:"@ + alt + "]"@
    }
}

/// `[图片]` for an empty `alt`, `[公式:<alt>]` otherwise.
pub fn img_placeholder(alt: &str) -> (r: String)
    ensures
        r@ == placeholder_for(alt@),
{
    if alt.is_empty() {
        String::from_str("[图片]")
    } else {
        let r = String::from_str("[公式:");
        let r = r.concat(alt);
        r.concat("]")
    }
}

/// One regex step: the replacement result when the pattern compiles, the text
/// unchanged when it does not.
pub open spec fn regex_step(pattern: Seq<char>, text: Seq<char>, replacement: Seq<char>) -> Seq<
    char,
> {
    if regex_compiles(pattern) {
        regex_replace_all(pattern, text, replacement)
    } else {
        text
    }
}

fn apply_regex(pattern: &str, text: String, replacement: &str) -> (r: String)
    ensures
        r@ == regex_step(pattern@, text@, replacement@),
{
    match regex_replace(pattern, text.as_str(), replacement) {
        Some(out) => out,
        None => text,
    }
}

/// The eight character entities that are decoded, in the order applied.
pub open spec fn decode_entities(t: Seq<char>) -> Seq<char> {
    let t = replaced(t, "&amp;"@, "&"@);
    let t = replaced(t, "&lt;"@, "<"@);
    let t = replaced(t, "&gt;"@, ">"@);
    let t = replaced(t, "&quot;"@, "\""@);
    let t = replaced(t, "&#92;"@, "\\"@);
    let t = replaced(t, "&apos;"@, "'"@);
    let t = replaced(t, "&nbsp;"@, " "@);
    replaced(t, "&#xA0;"@, " "@)
}

fn replace_entity(t: Vec<char>, pat: &str, rep: &str) -> (r: Vec<char>)
    requires
        pat@.len() > 0,
    ensures
        r@ == replaced(t@, pat@, rep@),
{
    let p = chars_of(pat);
    let q = chars_of(rep);
    replace_all_literal(&t, &p, &q)
}

/// The HTML entities of `t` decoded, in the order that `decode_entities`
/// gives: the step of `html_to_text` between dropping the tags and
/// collapsing white space.
pub fn decode_entities_exec(t: Vec<char>) -> (r: Vec<char>)
    ensures
        r@ == decode_entities(t@),
{
    proof {
        reveal_strlit("&amp;");
        reveal_strlit("&lt;");
        reveal_strlit("&gt;");
        reveal_strlit("&quot;");
        reveal_strlit("&#92;");
        reveal_strlit("&apos;");
        reveal_strlit("&nbsp;");
        reveal_strlit("&#xA0;");
    }
    let t = replace_entity(t, "&amp;", "&");
    let t = replace_entity(t, "&lt;", "<");
    let t = replace_entity(t, "&gt;", ">");
    let t = replace_entity(t, "&quot;", "\"");
    let t = replace_entity(t, "&#92;", "\\");
    let t = replace_entity(t, "&apos;", "'");
    let t = replace_entity(t, "&nbsp;", " ");
    replace_entity(t, "&#xA0;", " ")
}

/// The plain text of `html`, step by step as `html_to_text` computes it.
pub open spec fn html_text(html: Seq<char>) -> Seq<char> {
    let t = if regex_compiles(IMG_ALT_PATTERN@) {
        regex_replace_by_alt(IMG_ALT_PATTERN@, html)
    } else {
        html
    };
    let t = regex_step(IMG_PATTERN@, t, "[图片]"@);
    let t = regex_step(MATH_PATTERN@, t, "$1"@);
    let t = regex_step(STYLE_PATTERN@, t, ""@);
    let t = regex_step(SCRIPT_PATTERN@, t, ""@);
    let t = regex_step(BLOCK_PATTERN@, t, " "@);
    let t = regex_step(TAG_PATTERN@, t, ""@);
    let t = decode_entities(t);
    let t = regex_step(WS_PATTERN@, t, " "@);
    trimmed(t)
}

/// HTML to plain text: formula `alt` texts as `[公式:..]`, pictures as
/// `[图片]`, math spans by their content, style and script elements dropped,
/// block tags as a space, other tags dropped, entities decoded, white space
/// collapsed, and the result trimmed.
pub fn html_to_text(html: &str) -> (r: String)
    ensures
        r@ == html_text(html@),
        trimmed(r@) == r@,
{
    let t = match regex_replace_img(IMG_ALT_PATTERN, html) {
        Some(out) => out,
        None => String::from_str(html),
    };
    let t = apply_regex(IMG_PATTERN, t, "[图片]");
    let t = apply_regex(MATH_PATTERN, t, "$1");
    let t = apply_regex(STYLE_PATTERN, t, "");
    let t = apply_regex(SCRIPT_PATTERN, t, "");
    let t = apply_regex(BLOCK_PATTERN, t, " ");
    let t = apply_regex(TAG_PATTERN, t, "");
    let v = chars_of(t.as_str());
    let v = decode_entities_exec(v);
    let t = crate::text::string_from_chars(v.as_slice());
    let t = apply_regex(WS_PATTERN, t, " ");
    let w = chars_of(t.as_str());
    let v = trim_chars(&w);
    proof {
        crate::text::lemma_trimmed_idempotent(w@);
    }
    crate::text::string_from_chars(v.as_slice())
}

/// The text that the embedding model is given for a stem or an analysis:
/// `html_to_text` of it.
pub fn extract_text_from_html(html: &str) -> (r: String)
    ensures
        r@ == html_text(html@),
{
    html_to_text(html)
}

} // verus!
