use kreuzberg::latex::{LatexExtractor, LatexParser};
use kreuzberg::plugins::DocumentExtractor;
use kreuzberg::types::ExtractionConfig;

fn text_of(latex: &str) -> String {
    LatexExtractor::extract_from_latex(latex).0
}

#[test]
fn test_basic_title_extraction() {
    let latex = r#"\title{Hello World}"#;
    let (_, metadata, _) = LatexExtractor::extract_from_latex(latex);
    assert_eq!(
        metadata.additional.get("title").and_then(|v| v.as_str()),
        Some("Hello World")
    );
}

#[test]
fn test_author_extraction() {
    let latex = r#"\author{John Doe}"#;
    let (_, metadata, _) = LatexExtractor::extract_from_latex(latex);
    assert!(metadata.additional.get("author").is_some());
}

#[test]
fn test_section_extraction() {
    let latex = r#"\section{Introduction}"#;
    let (content, _, _) = LatexExtractor::extract_from_latex(latex);
    assert!(content.contains("Introduction"));
}

#[test]
fn section_is_a_level_one_heading() {
    assert_eq!(text_of(r#"\section{Introduction}"#), "# Introduction");
}

#[test]
fn headings_have_one_mark_per_level() {
    let latex = r#"\section{A}\subsection{B}\subsubsection{C}\paragraph{D}\subparagraph{E}"#;
    assert_eq!(text_of(latex), "# A\n\n## B\n\n### C\n\n#### D\n\n##### E");
}

#[test]
fn heading_skips_its_optional_argument() {
    assert_eq!(text_of(r#"\section[short]{Long title}"#), "# Long title");
}

#[test]
fn tabular_gives_cells_and_markdown() {
    let latex = "\\begin{tabular}{cc}A & B \\\\ C & D\\end{tabular}";
    let (content, _, tables) = LatexExtractor::extract_from_latex(latex);
    assert_eq!(tables.len(), 1);
    let expected: Vec<Vec<String>> = vec![
        vec!["A".to_string(), "B".to_string()],
        vec!["C".to_string(), "D".to_string()],
    ];
    assert_eq!(tables[0].cells, expected);
    assert_eq!(tables[0].markdown, "| A | B |\n|---|---|\n| C | D |\n");
    assert_eq!(tables[0].page_number, 1);
    assert_eq!(content, "| A | B |\n|---|---|\n| C | D |");
    for value in ["A", "B", "C", "D"] {
        assert!(tables[0].markdown.contains(value));
    }
}

#[test]
fn tabular_without_a_column_specification() {
    let plain = LatexExtractor::extract_from_latex("\\begin{tabular}A & B \\\\ C & D\\end{tabular}");
    let placed = LatexExtractor::extract_from_latex("\\begin{tabular}[t]{|l|r|}A & B \\\\ C & D\\end{tabular}");
    assert_eq!(plain.2[0].cells, placed.2[0].cells);
    assert_eq!(plain.0, "| A | B |\n|---|---|\n| C | D |");
    assert_eq!(placed.0, plain.0);
}

#[test]
fn cells_are_read_as_inline_content() {
    let (_, table) = LatexParser::parse_tabular("\\textbf{x} & a \\& b").unwrap();
    assert_eq!(table.cells, vec![vec!["**x**".to_string(), "a & b".to_string()]]);
}

#[test]
fn single_row_table_has_no_separator() {
    let (markdown, table) = LatexParser::parse_tabular("x & y").unwrap();
    assert_eq!(markdown, "| x | y |\n");
    assert_eq!(table.cells, vec![vec!["x".to_string(), "y".to_string()]]);
}

#[test]
fn rows_may_differ_in_length() {
    let (markdown, table) = LatexParser::parse_tabular("a & b & c \\\\ d").unwrap();
    assert_eq!(
        table.cells,
        vec![
            vec!["a".to_string(), "b".to_string(), "c".to_string()],
            vec!["d".to_string()]
        ]
    );
    assert_eq!(markdown, "| a | b | c |\n|---|---|---|\n| d |\n");
}

#[test]
fn empty_tabular_gives_no_table() {
    assert!(LatexParser::parse_tabular("   ").is_none());
    let (content, _, tables) = LatexExtractor::extract_from_latex("\\begin{tabular}\\end{tabular}");
    assert!(tables.is_empty());
    assert_eq!(content, "");
}

#[test]
fn reading_goes_on_behind_an_argument() {
    let latex = "\\documentclass{article}\\begin{document}Hello \\textbf{World}!\\end{document}";
    assert_eq!(text_of(latex), "Hello **World**!");
}

#[test]
fn reading_goes_on_behind_an_environment() {
    let latex = "\\begin{document}\\begin{itemize}\\item One\\end{itemize}after\\end{document}";
    assert_eq!(text_of(latex), "- One\n\nafter");
}

#[test]
fn text_before_the_document_body_is_dropped() {
    assert_eq!(text_of("preamble\\begin{document}body\\end{document}"), "body");
}

#[test]
fn itemize_gives_dashes() {
    assert_eq!(
        text_of("\\begin{itemize}\\item One\\item Two\\end{itemize}"),
        "- One\n- Two"
    );
}

#[test]
fn enumerate_counts_its_items() {
    assert_eq!(
        LatexParser::parse_list("\\item One\\item Two\\item Three", "enumerate"),
        "1. One\n2. Two\n3. Three\n"
    );
}

#[test]
fn numbering_starts_again_behind_a_restart() {
    assert_eq!(
        LatexParser::parse_list("\\item a\\item b\\setcounter{enumi}{0}\\item c\\item d", "enumerate"),
        "1. a\n2. b\n1. c\n2. d\n"
    );
    assert_eq!(
        LatexParser::parse_list("\\item a\\setcounter{enumi}{3} x\\item b", "itemize"),
        "- a\n- b\n"
    );
    assert_eq!(
        LatexParser::parse_list("\\item a \\small b \\itshape c", "enumerate"),
        "1. a \\small b \\itshape c\n"
    );
}

#[test]
fn items_without_text_take_no_number() {
    assert_eq!(
        LatexParser::parse_list("lead\\item\\item x\\item \\item y", "enumerate"),
        "1. x\n2. \n3. y\n"
    );
}

#[test]
fn description_writes_its_labels() {
    assert_eq!(
        LatexParser::parse_list("\\item[Term] Meaning\\item[Other] Second", "description"),
        "Term: Meaning\nOther: Second\n"
    );
    assert_eq!(LatexParser::parse_list("\\item[K] v", "description"), "K: v\n");
    assert_eq!(LatexParser::parse_list("\\item plain", "description"), "plain\n");
}

#[test]
fn inline_markers() {
    let latex = "\\begin{document}\\emph{a} \\textit{b} \\textbf{c} \\texttt{d} \\sout{e} \
                 x\\textsuperscript{2} y\\textsubscript{i}\\end{document}";
    assert_eq!(text_of(latex), "*a* *b* **c** `d` ~~e~~ x^2 y_i");
}

#[test]
fn escaped_symbols() {
    assert_eq!(
        text_of("\\begin{document}50\\% \\& \\# \\_ \\}\\end{document}"),
        "50% & # _ }"
    );
}

#[test]
fn named_symbols_pass_over_an_empty_group() {
    assert_eq!(
        text_of("\\begin{document}a\\ldots{} b \\textless{}c\\textgreater{} \\textbackslash\\end{document}"),
        "a... b <c> \\"
    );
}

#[test]
fn links_images_and_citations() {
    assert_eq!(text_of("\\href{http://x.org}{the \\& site}"), "[the & site](http://x.org)");
    assert_eq!(text_of("\\url{http://x.org/a_b}"), "http://x.org/a_b");
    assert_eq!(text_of("\\includegraphics[width=3cm]{fig.png}"), "[image: fig.png]");
    assert_eq!(text_of("\\cite{knuth}"), "[knuth]");
    assert_eq!(text_of("\\cite[p. 3]{knuth}"), "[knuth:p. 3]");
    assert_eq!(text_of("\\cite[]{knuth}"), "[knuth]");
}

#[test]
fn footnote_is_marked_and_appended() {
    let latex = "\\begin{document}A\\footnote{note}\\end{document}";
    assert_eq!(text_of(latex), "A [^1]\n\n[^1]: note");
}

#[test]
fn notes_stand_at_the_end_of_the_output() {
    let latex = "\\begin{document}A\\footnote{n} B\\footnote{m \\& m} C\\end{document}";
    assert_eq!(text_of(latex), "A [^1] B [^8] C\n\n[^1]: n\n\n[^8]: m & m");
    assert_eq!(
        text_of("\\begin{document}A\\footnote{N} B\\end{document}"),
        "A [^1] B\n\n[^1]: N"
    );
}

#[test]
fn footnote_without_an_argument_leaves_nothing() {
    assert_eq!(text_of("\\begin{document}A\\footnote B\\end{document}"), "A B");
}

#[test]
fn footnote_numbers_count_bytes() {
    let latex = "\\begin{document}\u{e9}\\footnote{n}\\end{document}";
    assert_eq!(text_of(latex), "\u{e9} [^2]\n\n[^2]: n");
}

#[test]
fn math_is_kept_as_it_stands() {
    assert_eq!(text_of("$a+b$"), "$a+b$");
    assert_eq!(text_of("$$x^2$$"), "$$x^2$$");
    assert_eq!(text_of("$a\\$b$"), "$a\\$b$");
    assert_eq!(text_of("$$a$b$$"), "$$a$b$$");
    assert_eq!(text_of("\\ensuremath{x}"), "$x$");
}

#[test]
fn verbatim_text() {
    assert_eq!(text_of("\\verb|x_y|"), "`x_y`");
    assert_eq!(
        text_of("\\begin{verbatim}a \\textbf{b}\\end{verbatim}"),
        "a \\textbf{b}"
    );
}

#[test]
fn unknown_command_keeps_its_argument() {
    assert_eq!(text_of("\\foo{bar \\& baz}"), "bar & baz");
    assert_eq!(text_of("\\begin{center}mid\\end{center}"), "mid");
}

#[test]
fn group_is_read_as_inline_text() {
    assert_eq!(text_of("\\{a \\% b}"), "a % b");
}

#[test]
fn rule_and_line_break() {
    assert_eq!(text_of("\\begin{document}a\\\\b\\rule{1cm}{1pt}c\\end{document}"), "a\nb---\nc");
}

#[test]
fn blank_lines_are_collapsed() {
    assert_eq!(text_of("\\begin{document}a\n\n\n\n\nb\\end{document}"), "a\n\nb");
    assert_eq!(text_of("\\begin{document}a\n\nb\\end{document}"), "a\n\nb");
}

#[test]
fn unterminated_constructs_end_with_the_text() {
    assert_eq!(text_of("\\begin{document}a \\textbf{b"), "a **b**");
    assert_eq!(text_of("\\begin{itemize}\\item x"), "- x");
    assert_eq!(text_of("$a"), "$a$");
    assert_eq!(text_of("\\begin{document}a\\"), "a\\");
}

#[test]
fn last_occurrence_of_a_metadata_command_wins() {
    let (_, metadata, _) = LatexExtractor::extract_from_latex("\\title{First}\n\\title{Second}");
    assert_eq!(
        metadata.additional.get("title").and_then(|v| v.as_str()),
        Some("Second")
    );
}

#[test]
fn authors_are_split_and_trimmed() {
    let (_, metadata, _) = LatexExtractor::extract_from_latex("\\author{Ann Lee \\and  Bob Ray }");
    assert_eq!(
        metadata.additional.get("author").and_then(|v| v.as_str()),
        Some("Ann Lee")
    );
    let authors = metadata.additional.get("authors").and_then(|v| v.as_list()).unwrap();
    assert_eq!(authors, &vec!["Ann Lee".to_string(), "Bob Ray".to_string()]);
}

#[test]
fn date_and_document_class() {
    let (_, metadata, _) =
        LatexExtractor::extract_from_latex("\\documentclass[12pt]{article}\\date{2024}");
    assert_eq!(metadata.date, Some("2024".to_string()));
    assert_eq!(
        metadata.additional.get("documentclass").and_then(|v| v.as_str()),
        Some("article")
    );
    let (_, plain, _) = LatexExtractor::extract_from_latex("\\documentclass{report}");
    assert_eq!(
        plain.additional.get("documentclass").and_then(|v| v.as_str()),
        Some("report")
    );
    assert_eq!(plain.date, None);
    assert!(plain.additional.get("title").is_none());
}

#[test]
fn command_name_is_escaped_in_the_pattern() {
    let parser = LatexParser::new("\\a.b{x} \\a+b{y}");
    assert_eq!(parser.extract_command_content("a+b"), Some("y".to_string()));
    assert_eq!(parser.extract_command_content("a.b"), Some("x".to_string()));
    assert_eq!(parser.extract_command_content("c"), None);
}

#[test]
fn parsing_is_deterministic() {
    let latex = "\\title{T}\\begin{document}\\section{S}x \\footnote{f}\\begin{tabular}1 & 2\\end{tabular}\\end{document}";
    let a = LatexExtractor::extract_from_latex(latex);
    let b = LatexExtractor::extract_from_latex(latex);
    assert_eq!(a.0, b.0);
    assert_eq!(a.2.len(), b.2.len());
    assert_eq!(a.2[0].cells, b.2[0].cells);
    assert_eq!(a.2[0].markdown, b.2[0].markdown);
}

#[test]
fn parser_reads_step_by_step() {
    let chars: Vec<char> = "section*{a{b}c} rest".chars().collect();
    let (name, end) = LatexParser::read_command_name(&chars, 0);
    assert_eq!(name.iter().collect::<String>(), "section*");
    assert_eq!(end, 8);
    let (content, next) = LatexParser::read_braced_content(&chars, 9);
    assert_eq!(content.iter().collect::<String>(), "a{b}c");
    assert_eq!(next, 15);
    let single: Vec<char> = "%x".chars().collect();
    assert_eq!(LatexParser::read_command_name(&single, 0).1, 1);
}

#[test]
fn environment_ends_at_its_marker() {
    let chars: Vec<char> = "a \\b c\\end{quote} tail".chars().collect();
    let (content, next) = LatexParser::extract_environment(&chars, 0, "quote");
    assert_eq!(content.iter().collect::<String>(), "a \\b c");
    assert_eq!(next, 17);
}

#[test]
fn latex_extractor_interface() {
    let extractor = LatexExtractor::new();
    assert_eq!(extractor.name(), "latex-extractor");
    assert_eq!(extractor.priority(), 50);
    assert_eq!(
        extractor.supported_mime_types(),
        vec!["application/x-latex", "text/x-tex", "text/plain"]
    );
    assert!(extractor.initialize().is_ok());
    assert!(extractor.shutdown().is_ok());
    let result = extractor
        .extract_bytes(b"\\section{Hi}", "text/x-tex", &ExtractionConfig::new())
        .unwrap();
    assert_eq!(result.content, "# Hi");
    assert_eq!(result.mime_type, "text/x-tex");
    assert!(result.tables.is_empty());
    assert!(result.detected_languages.is_none());
}

#[test]
fn invalid_utf8_is_replaced() {
    let extractor = LatexExtractor::new();
    let result = extractor
        .extract_bytes(b"\\begin{document}a\xffb\\end{document}", "text/x-tex", &ExtractionConfig::new())
        .unwrap();
    assert_eq!(result.content, "a\u{fffd}b");
}

fn inline(content: &str) -> String {
    let chars: Vec<char> = content.chars().collect();
    LatexParser::process_inline_content(&chars).iter().collect()
}

#[test]
fn inline_content_maps_formatting_to_markers() {
    assert_eq!(inline("A \\textbf{B}"), "A **B**");
    assert_eq!(inline("a \\& b \\textbf{c} \\textless x\\"), "a & b **c** < x\\");
    assert_eq!(inline("\\emph{a} \\texttt{b\\_c} \\sout{d} e\\textsuperscript{2}"), "*a* `b\\_c` ~~d~~ e^2");
    assert_eq!(inline("\\textbf{a \\emph{b}} c"), "**a *b*** c");
    assert_eq!(inline("\\href{u}{\\textit{t}} \\cite{k} \\verb|x| \\ldots{}"), "[*t*](u) [k] `x` ...");
    assert_eq!(inline("\\{x\\} $a_\\textbf{b}$ \\foo{y} \\bar z"), "{x} $a_\\textbf{b}$ y  z");
    assert_eq!(inline("n\\footnote{f} \\begin{x}\\end{x}."), "nf .");
    let content: Vec<char> = "\\textbf{q}".chars().collect();
    let braced: String = LatexParser::process_braced_content(&content).iter().collect();
    assert_eq!(braced, "**q**");
}

#[test]
fn titles_and_environments_are_read_as_inline_content() {
    assert_eq!(text_of("\\section{The \\emph{big} one}"), "# The *big* one");
    assert_eq!(
        text_of("\\begin{quote}Some \\textbf{bold} words\\end{quote}"),
        "Some **bold** words"
    );
}

#[test]
fn arguments_too_deep_are_taken_as_they_stand() {
    let levels = 34;
    let source = format!("{}x{}", "\\emph{".repeat(levels), "}".repeat(levels));
    let expected = format!("{}\\emph{{x}}{}", "*".repeat(33), "*".repeat(33));
    assert_eq!(inline(&source), expected);
}

#[test]
fn command_with_optional_argument() {
    let parser = LatexParser::new("\\usepackage{a}\\usepackage[utf8]{inputenc}\\usepackage");
    assert_eq!(parser.extract_command_with_args("usepackage"), Some("inputenc".to_string()));
    assert_eq!(parser.extract_command_content("usepackage"), Some("a".to_string()));
    assert_eq!(parser.extract_command_with_args("title"), None);
}
