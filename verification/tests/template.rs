use gallery_fetch::error::CrateError;
use gallery_fetch::template::parser::{parse_template, split_separators, sub, template, text};
use gallery_fetch::template::{Lexem, Template};

#[test]
fn render_test() {
    let lexems = vec![Lexem::plain("text-"), Lexem::sub("test")];
    let t = Template { lexems };
    let sub = [("test", "asdf")];
    assert_eq!(t.render(&sub).unwrap(), String::from("text-asdf"));
}

#[test]
fn sub_test() {
    assert_eq!(sub("{ab_c}"), Ok(("", Lexem::sub("ab_c"))));
    assert!(sub("{ab-c}").is_err());
}

#[test]
fn text_test() {
    assert_eq!(text("text{tag}"), Ok(("{tag}", Lexem::plain("text"))));
    assert_eq!(text("text/{tag}"), Ok(("{tag}", Lexem::plain("text/"))));
    assert_eq!(text("text"), Ok(("", Lexem::plain("text"))));
}

#[test]
fn template_test() {
    let mut expected = vec![
        Lexem::sub("a"),
        Lexem::plain("/"),
        Lexem::sub("text"),
        Lexem::plain("."),
        Lexem::sub("ext"),
    ];
    assert_eq!(template("{a}/{text}.{ext}"), Ok(("", expected.clone())));
    expected.insert(0, Lexem::plain("http://"));
    assert_eq!(template("http://{a}/{text}.{ext}"), Ok(("", expected)));
}

#[test]
fn sub_returns_what_follows() {
    assert_eq!(sub("{id}.png"), Ok((".png", Lexem::sub("id"))));
    assert_eq!(sub("{A_b}{c}"), Ok(("{c}", Lexem::sub("A_b"))));
}

#[test]
fn sub_rejects_what_is_no_placeholder() {
    for input in ["", "abc", "{", "{}", "{a", "{a b}", "{a1}", "{é}", "}a{"] {
        assert_eq!(sub(input), Err(CrateError::InvalidPattern(input.to_string())));
    }
}

#[test]
fn text_may_be_empty() {
    assert_eq!(text(""), Ok(("", Lexem::plain(""))));
    assert_eq!(text("{a}"), Ok(("{a}", Lexem::plain(""))));
}

#[test]
fn text_keeps_closing_braces() {
    assert_eq!(text("a}b{c}"), Ok(("{c}", Lexem::plain("a}b"))));
}

#[test]
fn empty_pattern_has_no_lexems() {
    assert_eq!(parse_template(""), Ok(vec![]));
    assert_eq!(Template::try_from("").unwrap().lexems, vec![]);
}

#[test]
fn parse_template_reads_whole_pattern() {
    assert_eq!(
        parse_template("a{b}c/d"),
        Ok(vec![Lexem::plain("a"), Lexem::sub("b"), Lexem::plain("c/d")])
    );
}

#[test]
fn malformed_patterns_are_rejected() {
    for pattern in ["{", "a{", "{a", "a{b}{c", "{}", "{a-b}", "{a}{", "x{é}y", "{a{b}}"] {
        assert_eq!(
            parse_template(pattern),
            Err(CrateError::InvalidPattern(pattern.to_string()))
        );
        assert_eq!(
            Template::try_from(pattern),
            Err(CrateError::InvalidPattern(pattern.to_string()))
        );
    }
}

#[test]
fn closing_brace_alone_is_literal() {
    assert_eq!(parse_template("a}b"), Ok(vec![Lexem::plain("a}b")]));
    assert_eq!(Template::try_from("}").unwrap().lexems, vec![Lexem::plain("}")]);
}

#[test]
fn split_separators_cuts_literals_at_slashes() {
    let raw = vec![
        Lexem::plain("http://"),
        Lexem::sub("a"),
        Lexem::plain("/"),
        Lexem::plain("x/y"),
        Lexem::plain(""),
    ];
    assert_eq!(
        split_separators(&raw),
        vec![
            Lexem::plain("http:"),
            Lexem::PathSep,
            Lexem::PathSep,
            Lexem::sub("a"),
            Lexem::PathSep,
            Lexem::plain("x"),
            Lexem::PathSep,
            Lexem::plain("y"),
        ]
    );
}

#[test]
fn compile_tells_separators_apart() {
    let t = Template::try_from("{a}/{text}.{ext}").unwrap();
    assert_eq!(
        t.lexems,
        vec![
            Lexem::sub("a"),
            Lexem::PathSep,
            Lexem::sub("text"),
            Lexem::plain("."),
            Lexem::sub("ext"),
        ]
    );
}

#[test]
fn render_writes_separators_as_slashes() {
    let t = Template { lexems: vec![Lexem::plain("a"), Lexem::PathSep, Lexem::sub("b")] };
    assert_eq!(t.render(&[("b", "c")]).unwrap(), "a/c");
}

#[test]
fn render_round_trip() {
    let pattern = "http://{host}/{id}_x.{ext}";
    let t = Template::try_from(pattern).unwrap();
    let subs = [("host", "example.com"), ("id", "42"), ("ext", "png")];
    assert_eq!(t.render(&subs).unwrap(), "http://example.com/42_x.png");
    let same = [("host", "{host}"), ("id", "{id}"), ("ext", "{ext}")];
    assert_eq!(t.render(&same).unwrap(), pattern);
}

#[test]
fn render_takes_values_as_they_are() {
    let t = Template::try_from("{a}-{a}").unwrap();
    assert_eq!(t.render(&[("a", "{b}/ ")]).unwrap(), "{b}/ -{b}/ ");
    assert_eq!(t.render(&[("a", "")]).unwrap(), "-");
}

#[test]
fn render_last_value_of_a_name_counts() {
    let t = Template::try_from("{a}").unwrap();
    assert_eq!(t.render(&[("a", "1"), ("b", "x"), ("a", "2")]).unwrap(), "2");
}

#[test]
fn render_ignores_names_it_does_not_need() {
    let t = Template::try_from("x").unwrap();
    assert_eq!(t.render(&[("a", "1")]).unwrap(), "x");
    assert_eq!(Template::default().render(&[]).unwrap(), "");
}

#[test]
fn render_missing_key_names_the_key() {
    let t = Template::try_from("{a}/{b}.{c}").unwrap();
    assert_eq!(
        t.render(&[("a", "1"), ("c", "3")]),
        Err(CrateError::MissingTemplateKey("b".to_string()))
    );
}

#[test]
fn render_names_the_first_missing_key() {
    let t = Template::try_from("{z}{a}{m}").unwrap();
    assert_eq!(t.render(&[("a", "1")]), Err(CrateError::MissingTemplateKey("z".to_string())));
    assert_eq!(t.render(&[("z", "1")]), Err(CrateError::MissingTemplateKey("a".to_string())));
    assert_eq!(t.render(&[]), Err(CrateError::MissingTemplateKey("z".to_string())));
}

#[test]
fn lexem_duplicate_is_equal() {
    for l in [Lexem::PathSep, Lexem::plain("a"), Lexem::sub("b")] {
        assert_eq!(l.duplicate(), l);
    }
}
