use htms::assets::{static_on_response_js, static_style_css};
use htms::passes::IncludeFile;
use htms::template::{build_template, Build, Error};

fn build_str(input: &str) -> Result<(Vec<u8>, Build), Error> {
    build_template(
        "input.html",
        "output.html",
        &input.as_bytes().to_vec(),
        &Vec::new(),
    )
}

fn build_rendered(input: &str) -> (Build, String) {
    let (out, build) = build_str(input).expect("build");
    (build, String::from_utf8(out).expect("utf8 output"))
}

fn names_contain(build: &Build, name: &str) -> bool {
    build.task_names().iter().any(|n| n == name)
}

#[test]
fn without_html_tag_does_not_inject_style_and_script() {
    let (build, rendered) = build_rendered("<p>Content</p>");

    assert!(!build.has_html_tag());
    assert!(!rendered.contains("<style>"));
    assert!(!rendered.contains("<script>"));
    assert!(rendered.contains("<p>Content</p>"));
}

#[test]
fn with_html_tag_injects_style_and_script_and_removes_end_tags() {
    let (build, rendered) = build_rendered(
        r"<!doctype html><html><head></head><body>
            <p>Content</p>
            </body></html>",
    );

    assert!(build.has_html_tag());
    assert!(rendered.contains(format!("<style>{}</style>", static_style_css()).as_str()));
    assert!(rendered.contains(format!("<script>{}</script>", static_on_response_js()).as_str()));
    assert_eq!(rendered.matches("<style>").count(), 1);
    assert_eq!(rendered.matches("<script>").count(), 1);
    assert!(!rendered.contains("</body>"));
    assert!(!rendered.contains("</html>"));
}

#[test]
fn collects_task_names_and_normalizes_attribute() {
    let (build, rendered) = build_rendered(
        r#"<!doctype html><html><head></head><body>
            <div data-htms="fn:news"></div>
            <div data-htms="fn:blog_posts"></div>
            </body></html>"#,
    );

    assert!(names_contain(&build, "news"));
    assert!(names_contain(&build, "blog_posts"));
    assert!(rendered.contains(r#"data-htms="news""#));
    assert!(rendered.contains(r#"data-htms="blog_posts""#));
    assert!(!rendered.contains(r#"data-htms="fn:news""#));
    assert!(!rendered.contains(r#"data-htms="fn:blog_posts""#));
}

#[test]
fn include_fragment_and_collects_task_names() {
    let fragment = r#"
        <strong>Some HTML to be included in tests.</strong>
        <div data-htms="fn:included_fn"></div>
        "#;
    let files = vec![IncludeFile {
        path: b"included_fragment.html".to_vec(),
        content: Some(fragment.as_bytes().to_vec()),
        detail: String::new(),
    }];
    let input = r#"<!doctype html><html><head></head><body>
            <div data-htms="fn:news"></div>
            <div data-htms="include:included_fragment.html"></div>
            </body></html>"#;
    let (out, build) = build_template(
        "input.html",
        "output.html",
        &input.as_bytes().to_vec(),
        &files,
    )
    .expect("build");
    let rendered = String::from_utf8(out).expect("utf8 output");

    assert!(names_contain(&build, "news"));
    assert!(names_contain(&build, "included_fn"));
    assert!(rendered.contains("<strong>Some HTML to be included in tests.</strong>"));
    assert!(rendered.contains(r#"data-htms="news""#));
    assert!(rendered.contains(r#"data-htms="included_fn""#));
    assert!(!rendered.contains(r#"data-htms="fn:news""#));
    assert!(!rendered.contains(r#"data-htms="fn:included_fn""#));
}

#[test]
fn fails_on_invalid_htms_attribute() {
    let build = build_str(
        r#"<!doctype html><html><head></head><body>
            <div data-htms="fn:invalid-name"></div>
            </body></html>"#,
    );
    let is_error = build.is_err();
    let message = build.err().expect("expected a build error").message();

    assert!(is_error);
    assert!(message.contains("failed to write output chunk: "));
    assert!(message.contains("invalid attribute 'div[data-htms]' at byte offset 53"));
}

#[test]
fn missing_include_file_fails_naming_tag_path_and_offset() {
    let build = build_str(r#"<section data-htms="include:missing.html"></section>"#);
    let message = build.err().expect("expected a build error").message();

    assert!(message.contains("failed to rewrite the template: "));
    assert!(message.contains("failed to include fragment 'section[data-htms=\"missing.html\"]'"));
    assert!(message.contains("at byte offset 0"));
}

#[test]
fn include_replaces_element_and_drops_its_content() {
    let files = vec![IncludeFile {
        path: b"part.html".to_vec(),
        content: Some(b"<em>included</em>".to_vec()),
        detail: String::new(),
    }];
    let input = r#"<p>before</p><div data-htms="include:part.html"><span>old</span></div><p>after</p>"#;
    let (out, _build) = build_template(
        "input.html",
        "output.html",
        &input.as_bytes().to_vec(),
        &files,
    )
    .expect("build");
    let rendered = String::from_utf8(out).expect("utf8 output");

    assert_eq!(rendered, "<p>before</p><em>included</em><p>after</p>");
}

#[test]
fn duplicate_task_names_are_collected_once() {
    let (build, _rendered) = build_rendered(
        r#"<div data-htms="fn:news"></div><div data-htms="fn:news"></div>"#,
    );

    assert_eq!(
        build.task_names().len(),
        1,
        "a name referenced twice must appear once"
    );
    assert!(names_contain(&build, "news"));
}

#[test]
fn task_names_keep_first_reference_order_and_rerun_is_identical() {
    let input = r#"<div data-htms="fn:zulu"></div><div data-htms="fn:alpha"></div>"#;
    let (out1, build1) = build_str(input).expect("build");
    let (out2, build2) = build_str(input).expect("build again");

    assert_eq!(build1.task_names(), &vec!["zulu".to_string(), "alpha".to_string()]);
    assert_eq!(build1.task_names(), build2.task_names());
    assert_eq!(out1, out2);
}

#[test]
fn upper_case_tags_are_recognized() {
    let (build, rendered) =
        build_rendered("<HTML><HEAD></HEAD><BODY><p>x</p></BODY></HTML>");

    assert!(build.has_html_tag());
    assert!(rendered.contains("<style>"));
    assert!(rendered.contains("<script>"));
    assert!(!rendered.contains("</BODY>"));
    assert!(!rendered.contains("</HTML>"));
}

#[test]
fn marker_value_trailing_whitespace_is_trimmed() {
    let (build, rendered) = build_rendered(r#"<div data-htms="fn:news  "></div>"#);

    assert!(names_contain(&build, "news"));
    assert!(rendered.contains(r#"data-htms="news""#));
}

#[test]
fn empty_template_builds_to_empty_output() {
    let (out, build) = build_str("").expect("build");

    assert!(out.is_empty());
    assert!(!build.has_html_tag());
    assert!(build.task_names().is_empty());
}

#[test]
fn scan_includes_lists_marker_paths_in_order() {
    let input = r#"<div data-htms="include:a.html"></div><p>x</p><img data-htms="include:b.html"/>"#;
    let paths = htms::template::scan_includes(&input.as_bytes().to_vec());

    assert_eq!(paths, vec![b"a.html".to_vec(), b"b.html".to_vec()]);
}

#[test]
fn error_messages_name_path_and_detail() {
    let open = Error::OpenInputPath("in.html".to_string(), "not found".to_string());
    assert_eq!(
        open.message(),
        "failed to open input path: in.html: not found"
    );

    let dir = Error::CreateOutputDirectory("out".to_string(), "denied".to_string());
    assert_eq!(
        dir.message(),
        "failed to create output directory: out: denied"
    );

    let create = Error::CreateOutputFile("out.html".to_string(), "denied".to_string());
    assert_eq!(
        create.message(),
        "failed to create output file: out.html: denied"
    );

    let read = Error::ReadInputChunk("in.html".to_string(), "io".to_string());
    assert_eq!(read.message(), "failed to read input chunk: in.html: io");

    let write_file = Error::WriteOutputFileChunk("out.html".to_string(), "full".to_string());
    assert_eq!(
        write_file.message(),
        "failed to write output file chunk: out.html: full"
    );

    let flush = Error::FlushOutputFile("out.html".to_string(), "io".to_string());
    assert_eq!(flush.message(), "failed to flush output file: out.html: io");

    let invalid = Error::InvalidHtmsAttribute {
        tag: b"div".to_vec(),
        offset: 53,
    };
    assert_eq!(
        invalid.message(),
        "invalid attribute 'div[data-htms]' at byte offset 53: expected a valid identifier"
    );

    let wrapped = Error::WriteOutputChunk("out.html".to_string(), Box::new(invalid));
    assert_eq!(
        wrapped.message(),
        "failed to write output chunk: out.html: invalid attribute 'div[data-htms]' at byte offset 53: expected a valid identifier"
    );

    let fragment_err = Error::IncludeFragment {
        tag: b"div".to_vec(),
        path: b"part.html".to_vec(),
        offset: 7,
        detail: "no such file".to_string(),
    };
    assert_eq!(
        fragment_err.message(),
        "failed to include fragment 'div[data-htms=\"part.html\"]' at byte offset 7: no such file"
    );

    let rewrap = Error::RewriteTemplate("in.html".to_string(), Box::new(fragment_err));
    assert_eq!(
        rewrap.message(),
        "failed to rewrite the template: failed to include fragment 'div[data-htms=\"part.html\"]' at byte offset 7: no such file"
    );
}

#[test]
fn identifier_validity() {
    assert!(htms::ident::is_valid_identifier(&b"news".to_vec()));
    assert!(htms::ident::is_valid_identifier(&b"blog_posts2".to_vec()));
    assert!(htms::ident::is_valid_identifier(&b"_x".to_vec()));
    assert!(!htms::ident::is_valid_identifier(&b"".to_vec()));
    assert!(!htms::ident::is_valid_identifier(&b"9lives".to_vec()));
    assert!(!htms::ident::is_valid_identifier(&b"invalid-name".to_vec()));
    assert!(!htms::ident::is_valid_identifier(&b"with space".to_vec()));
}

#[test]
fn nested_includes_are_not_re_resolved() {
    let files = vec![IncludeFile {
        path: b"outer.html".to_vec(),
        content: Some(br#"<div data-htms="include:inner.html"></div>"#.to_vec()),
        detail: String::new(),
    }];
    let input = r#"<div data-htms="include:outer.html"></div>"#;
    let (out, build) = build_template(
        "input.html",
        "output.html",
        &input.as_bytes().to_vec(),
        &files,
    )
    .expect("build");
    let rendered = String::from_utf8(out).expect("utf8 output");

    assert_eq!(rendered, r#"<div data-htms="include:inner.html"></div>"#);
    assert!(build.task_names().is_empty());
}

#[test]
fn single_quoted_marker_value_is_recognized() {
    let (build, rendered) = build_rendered("<div data-htms='fn:feed'></div>");

    assert!(names_contain(&build, "feed"));
    assert!(rendered.contains("data-htms='feed'"));
}

#[test]
fn unquoted_marker_value_is_recognized() {
    let (build, rendered) = build_rendered("<div data-htms=fn:feed></div>");

    assert!(names_contain(&build, "feed"));
    assert!(rendered.contains("data-htms=feed"));
}

#[test]
fn surrounding_attributes_are_preserved_on_rewrite() {
    let (build, rendered) =
        build_rendered(r#"<div class="cell" data-htms="fn:news" id="top"></div>"#);

    assert!(names_contain(&build, "news"));
    assert_eq!(rendered, r#"<div class="cell" data-htms="news" id="top"></div>"#);
}

#[test]
fn markers_inside_replaced_elements_are_not_resolved_or_collected() {
    let files = vec![IncludeFile {
        path: b"a.html".to_vec(),
        content: Some(b"<p>a</p>".to_vec()),
        detail: String::new(),
    }];
    let input = r#"<div data-htms="include:a.html"><span data-htms="fn:hidden"></span><div data-htms="include:gone.html"></div></div>"#;
    let (out, build) = build_template(
        "input.html",
        "output.html",
        &input.as_bytes().to_vec(),
        &files,
    )
    .expect("build");
    let rendered = String::from_utf8(out).expect("utf8 output");

    assert_eq!(rendered, "<p>a</p>");
    assert!(build.task_names().is_empty());
}

#[test]
fn comments_and_doctype_pass_through_unchanged() {
    let (build, rendered) =
        build_rendered("<!doctype html><!-- a <div data-htms=\"fn:x\"> inside --><p>t</p>");

    assert!(build.task_names().is_empty());
    assert!(rendered.contains("<!doctype html>"));
    assert!(rendered.contains("<!-- a <div data-htms=\"fn:x\"> inside -->"));
    assert!(!build.has_html_tag());
}

#[test]
fn invalid_marker_offset_counts_the_expanded_stream() {
    let files = vec![IncludeFile {
        path: b"p.html".to_vec(),
        content: Some(b"0123456789".to_vec()),
        detail: String::new(),
    }];
    let input = r#"<a data-htms="include:p.html"></a><div data-htms="fn:bad-name"></div>"#;
    let build = build_template(
        "input.html",
        "output.html",
        &input.as_bytes().to_vec(),
        &files,
    );
    let message = build.err().expect("expected a build error").message();

    assert!(message.contains("invalid attribute 'div[data-htms]' at byte offset 10"));
}

#[test]
fn invalid_marker_inside_included_fragment_fails_the_build() {
    let files = vec![IncludeFile {
        path: b"p.html".to_vec(),
        content: Some(br#"<div data-htms="fn:not-ok"></div>"#.to_vec()),
        detail: String::new(),
    }];
    let input = r#"<a data-htms="include:p.html"></a>"#;
    let build = build_template(
        "input.html",
        "output.html",
        &input.as_bytes().to_vec(),
        &files,
    );
    let message = build.err().expect("expected a build error").message();

    assert!(message.contains("invalid attribute 'div[data-htms]' at byte offset 0"));
}

#[test]
fn rooted_template_rewrite_matches_exactly() {
    let (_build, rendered) =
        build_rendered("<html><head>T</head><body>B</body></html>");
    let expected = format!(
        "<html><head>T<style>{}</style></head><body>B<script>{}</script>",
        static_style_css(),
        static_on_response_js()
    );

    assert_eq!(rendered, expected);
}
