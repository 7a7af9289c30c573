use onetagger::renamer::{Renamer, RenamerConfig, SyntaxType, TemplateParser};

/// HTML generation test
#[test]
fn generate_html() {
    let items = [
        "%artist% - %title%",
        "%track%. %artist% - %title%",
        "%artist% - %title% - %bpm% - %key%",
        "%artist% - %album%/%track% - %title%",
        "%year% - %album%/%track% - %artist% - %title%",
    ];
    for i in items {
        let renamer = Renamer::new(TemplateParser::parse(i));
        let output = renamer.generate_html(i);
        println!("{output}")
    }
}

#[test]
fn template_pieces_cover_variables_and_text() {
    let p = TemplateParser::parse("%artist% - %title%");
    assert_eq!(p.syntax.len(), 3);
    assert_eq!(p.syntax[0].syntax, SyntaxType::Variable);
    assert_eq!((p.syntax[0].start, p.syntax[0].length), (0, 8));
    assert_eq!(p.syntax[1].syntax, SyntaxType::Text);
    assert_eq!((p.syntax[1].start, p.syntax[1].length), (8, 3));
    assert_eq!(p.syntax[2].syntax, SyntaxType::Variable);
    assert_eq!((p.syntax[2].start, p.syntax[2].length), (11, 7));
}

#[test]
fn unclosed_percent_is_text() {
    let p = TemplateParser::parse("a%b");
    assert_eq!(p.syntax.len(), 2);
    assert_eq!(p.syntax[1].syntax, SyntaxType::Text);
    assert_eq!((p.syntax[1].start, p.syntax[1].length), (1, 2));
}

#[test]
fn html_escapes_spaces_and_names_classes() {
    let t = "%artist% - %title%";
    let renamer = Renamer::new(TemplateParser::parse(t));
    let html = renamer.generate_html(t);
    assert_eq!(
        html,
        "<span class=\"__renamer_syntax_variable\">%artist%</span>\
<span class=\"__renamer_syntax_text\">&nbsp;-&nbsp;</span>\
<span class=\"__renamer_syntax_variable\">%title%</span>"
    );
}

#[test]
fn html_of_empty_template_is_empty() {
    let renamer = Renamer::new(TemplateParser::parse(""));
    assert_eq!(renamer.generate_html("anything"), "");
}

#[test]
fn default_renamer_config() {
    let c = RenamerConfig::default_with_paths("/music", "%artist% - %title%");
    assert_eq!(c.path, "/music");
    assert_eq!(c.template, "%artist% - %title%");
    assert_eq!(c.separator, ", ");
    assert!(c.out_dir.is_none());
    assert!(!c.copy && !c.overwrite && !c.keep_subfolders && c.subfolders);
}
