use qdrant_vector::service::embedding::{
    decode_entities_exec, extract_text_from_html, html_to_text, img_placeholder,
};

#[test]
fn test_html_to_text() {
    let text = html_to_text("<p>在Excel中，对于AD5单元格，其绝对单元格表示方法为()</p><img src='x.png'/>");
    assert!(text.contains("绝对单元格"));
    assert!(!text.contains("<p>"));
}

#[test]
fn html_whole_output_for_paragraph_and_picture() {
    let text = html_to_text("<p>在Excel中，对于AD5单元格，其绝对单元格表示方法为()</p><img src='x.png'/>");
    assert_eq!(text, "在Excel中，对于AD5单元格，其绝对单元格表示方法为() [图片]");
}

#[test]
fn html_formula_alt_is_kept() {
    let text = html_to_text("<p>计算<img src=\"f.png\" alt=\"x^2+1\"/>的值</p>");
    assert_eq!(text, "计算[公式:x^2+1]的值");
}

#[test]
fn html_empty_alt_is_a_picture() {
    let text = html_to_text("看图<img class=\"q\" alt=\"\" src=\"a.png\">列式");
    assert_eq!(text, "看图[图片]列式");
}

#[test]
fn html_math_span_keeps_its_content() {
    let text = html_to_text("<span class=\"katex math-inline\">a+b</span> = 3");
    assert_eq!(text, "a+b = 3");
}

#[test]
fn html_style_and_script_are_dropped() {
    let text = html_to_text("<style>p { color: red; }</style>题干<script>alert(1)</script>结束");
    assert_eq!(text, "题干结束");
}

#[test]
fn html_entities_are_decoded_in_order() {
    assert_eq!(html_to_text("a &lt; b &amp;&amp; c &gt; d"), "a < b && c > d");
    // `&amp;` is decoded first, so an escaped entity is decoded twice.
    assert_eq!(html_to_text("x &amp;lt; y"), "x < y");
    assert_eq!(html_to_text("&quot;q&quot; &apos;s&apos; &#92;n"), "\"q\" 's' \\n");
    assert_eq!(html_to_text("a&nbsp;b&#xA0;c"), "a b c");
}

#[test]
fn html_white_space_is_collapsed_and_trimmed() {
    assert_eq!(html_to_text("  <div>一</div>\n\n<div>二</div>\t "), "一 二");
    assert_eq!(html_to_text("<br/><br/>"), "");
    assert_eq!(html_to_text(""), "");
}

#[test]
fn html_output_is_trimmed() {
    let text = html_to_text("<li>  项目  </li>");
    assert_eq!(text, text.trim());
    assert_eq!(text, "项目");
}

#[test]
fn extract_text_is_html_to_text() {
    let html = "<p>18 - 7 = 11（只）</p>";
    assert_eq!(extract_text_from_html(html), html_to_text(html));
    assert_eq!(extract_text_from_html(html), "18 - 7 = 11（只）");
}

#[test]
fn placeholder_of_alt() {
    assert_eq!(img_placeholder(""), "[图片]");
    assert_eq!(img_placeholder("\\frac{1}{2}"), "[公式:\\frac{1}{2}]");
}

#[test]
fn entities_are_decoded_in_order() {
    let input: Vec<char> = "a&amp;lt;b &lt;c&gt; &quot;d&quot;&#92;&apos;&nbsp;e&#xA0;f".chars().collect();
    let out: String = decode_entities_exec(input).into_iter().collect();
    assert_eq!(out, "a<b <c> \"d\"\\' e f");
}
